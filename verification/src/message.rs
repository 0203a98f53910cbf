//! The messages queued for the web page, one per game event.
use vstd::prelude::*;
use crate::character::CharacterData;
use crate::skill::{RawSkillData, SkillData, describes, div_ten, evo_skill_data};

verus! {

/// What happened in the game.
#[derive(Clone, Copy, Debug, PartialEq, Eq, Structural)]
pub enum MessageType {
    /// A character panel was shown.
    CharacterUpdate,
    /// Skills were added to the learning plan, or a skill was upgraded.
    SkillPlus,
    /// Skills were taken out of the learning plan.
    SkillMinus,
}

/// What a message carries.
#[derive(Debug)]
pub enum MessageData {
    CharacterUpdate(CharacterData),
    SkillUpdate(Vec<SkillData>),
}

/// One message for the web page.
#[derive(Debug)]
pub struct Message {
    pub message_type: MessageType,
    pub message: MessageData,
}

/// The message that reports a character panel.
pub fn character_update_message(character: CharacterData) -> (m: Message)
    ensures
        m.message_type == MessageType::CharacterUpdate,
        m.message == MessageData::CharacterUpdate(character),
{
    Message {
        message_type: MessageType::CharacterUpdate,
        message: MessageData::CharacterUpdate(character),
    }
}

/// The message that reports a click on `+` (`plus`) or `-` of the
/// skill-learning list, with the skills the click concerns.
pub fn skill_click_message(plus: bool, skills: Vec<SkillData>) -> (m: Message)
    ensures
        m.message_type == if plus {
            MessageType::SkillPlus
        } else {
            MessageType::SkillMinus
        },
        m.message matches MessageData::SkillUpdate(v) && v@ == skills@,
{
    let message_type = if plus {
        MessageType::SkillPlus
    } else {
        MessageType::SkillMinus
    };
    Message { message_type, message: MessageData::SkillUpdate(skills) }
}

/// The message that reports the upgrade of skill `original_id` into
/// `result_id` (0 where the skill is kept as it is), from the record that
/// `evo_skill_lookup_id` named: one skill, added to the plan.
pub fn evo_skill_common(original_id: i32, result_id: i32, looked_up: RawSkillData) -> (m: Message)
    ensures
        m.message_type == MessageType::SkillPlus,
        m.message matches MessageData::SkillUpdate(v) && v@.len() == 1 && describes(
            v@[0],
            looked_up,
            0,
            if result_id != 0 {
                div_ten(original_id as int)
            } else {
                div_ten(looked_up.id as int)
            },
        ),
{
    let skill = evo_skill_data(original_id, result_id, looked_up);
    let mut skills: Vec<SkillData> = Vec::new();
    skills.push(skill);
    Message { message_type: MessageType::SkillPlus, message: MessageData::SkillUpdate(skills) }
}

} // verus!
