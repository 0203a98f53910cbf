use plugin::character::{
    trainedcharadata_to_struct, worksinglemodecharadata_to_struct, CharaStats, RawTrainedCharaData,
    RawWorkCharaData,
};
use plugin::message::{
    character_update_message, evo_skill_common, skill_click_message, MessageData, MessageType,
};
use plugin::relay::{u32_to_le_bytes, RelaySession, ReplyDecision};
use plugin::skill::{
    acquiredskill_to_struct, evo_skill_lookup_id, on_click_list_item_common, skilldata_to_struct,
    RawSkillData, SkillEntry, SkillTag,
};

fn raw(id: i32, codes: Vec<i32>) -> RawSkillData {
    RawSkillData {
        id,
        name: format!("skill {id}"),
        rarity: 2,
        remark: String::from("remark"),
        tag_codes: codes,
        grade_value: 174,
        level_up_flag: 0,
        unique_flag: 3,
    }
}

fn stats(base: i32) -> CharaStats {
    CharaStats {
        speed: base,
        stamina: base + 1,
        power: base + 2,
        guts: base + 3,
        wiz: base + 4,
        proper_ground_turf: 8,
        proper_ground_dirt: 1,
        proper_distance_short: 2,
        proper_distance_mile: 3,
        proper_distance_middle: 4,
        proper_distance_long: 5,
        proper_running_style_nige: 6,
        proper_running_style_senko: 7,
        proper_running_style_sashi: 8,
        proper_running_style_oikomi: 1,
    }
}

#[test]
fn every_tag_code_roundtrips() {
    let tags = [
        SkillTag::RunningStyleBegin, SkillTag::Nige, SkillTag::Senko, SkillTag::Sashi,
        SkillTag::Oikomi, SkillTag::RunningStyleEnd, SkillTag::DistanceBegin, SkillTag::Short,
        SkillTag::Mile, SkillTag::Middle, SkillTag::Long, SkillTag::DistanceEnd, SkillTag::SPEED,
        SkillTag::STAMINA, SkillTag::POWER, SkillTag::GUTS, SkillTag::WIZ, SkillTag::DOWN,
        SkillTag::SPECIAL, SkillTag::GroundBegin, SkillTag::Turf, SkillTag::Dirt,
        SkillTag::GroundEnd, SkillTag::ScenarioBegin, SkillTag::ScenarioEnd,
    ];
    for t in tags {
        assert_eq!(SkillTag::try_from_code(t.code()), Ok(t));
    }
    assert_eq!(SkillTag::Nige.code(), 101);
    assert_eq!(SkillTag::WIZ.code(), 405);
    assert_eq!(SkillTag::ScenarioEnd.code(), 899);
}

#[test]
fn unknown_tag_code_is_handed_back() {
    assert_eq!(SkillTag::try_from_code(999), Err(999));
    assert_eq!(SkillTag::try_from_code(0), Err(0));
    assert_eq!(SkillTag::try_from_code(-101), Err(-101));
}

#[test]
fn skill_from_record() {
    let s = skilldata_to_struct(raw(200512, vec![101, 7, 202, 401, 1000]));
    assert_eq!(s.id, 200512);
    assert_eq!(s.name, "skill 200512");
    assert_eq!(s.group_id, 20051);
    assert_eq!(s.level, 0);
    assert_eq!(s.rarity, 2);
    assert_eq!(s.remark, "remark");
    assert_eq!(s.skill_tags, vec![SkillTag::Nige, SkillTag::Mile, SkillTag::SPEED]);
    assert_eq!(s.grade_value, 174);
    assert!(!s.is_level_up);
    assert!(s.is_unique_skill);
}

#[test]
fn group_id_rounds_toward_zero() {
    assert_eq!(skilldata_to_struct(raw(-15, vec![])).group_id, -1);
    assert_eq!(skilldata_to_struct(raw(9, vec![])).group_id, 0);
    assert_eq!(skilldata_to_struct(raw(i32::MIN, vec![])).group_id, i32::MIN / 10);
}

#[test]
fn acquired_skill_keeps_its_level() {
    let s = acquiredskill_to_struct(SkillEntry { level: 4, master_data: raw(100011, vec![]) });
    assert_eq!(s.level, 4);
    assert_eq!(s.group_id, 10001);
}

#[test]
fn list_click_reports_each_entry_in_order() {
    let skills = on_click_list_item_common(vec![
        SkillEntry { level: 1, master_data: raw(10, vec![]) },
        SkillEntry { level: 2, master_data: raw(20, vec![]) },
    ]);
    assert_eq!(skills.len(), 2);
    assert_eq!((skills[0].id, skills[0].level), (10, 1));
    assert_eq!((skills[1].id, skills[1].level), (20, 2));
    let m = skill_click_message(false, skills);
    assert_eq!(m.message_type, MessageType::SkillMinus);
    match m.message {
        MessageData::SkillUpdate(v) => assert_eq!(v.len(), 2),
        MessageData::CharacterUpdate(_) => panic!("wrong payload"),
    }
    let m = skill_click_message(true, vec![]);
    assert_eq!(m.message_type, MessageType::SkillPlus);
}

#[test]
fn upgrade_reports_result_in_original_group() {
    assert_eq!(evo_skill_lookup_id(200331, 200332), 200332);
    assert_eq!(evo_skill_lookup_id(200331, 0), 200331);
    let m = evo_skill_common(200331, 910012, raw(910012, vec![]));
    assert_eq!(m.message_type, MessageType::SkillPlus);
    match m.message {
        MessageData::SkillUpdate(v) => {
            assert_eq!(v.len(), 1);
            assert_eq!(v[0].id, 910012);
            assert_eq!(v[0].group_id, 20033);
        }
        MessageData::CharacterUpdate(_) => panic!("wrong payload"),
    }
    let m = evo_skill_common(200331, 0, raw(200331, vec![]));
    match m.message {
        MessageData::SkillUpdate(v) => assert_eq!(v[0].group_id, 20033),
        MessageData::CharacterUpdate(_) => panic!("wrong payload"),
    }
}

#[test]
fn character_in_training_has_no_rank_score() {
    let c = worksinglemodecharadata_to_struct(RawWorkCharaData {
        chara_id: 1001,
        chara_name: String::from("Special Week"),
        stats: stats(600),
        acquired_skills: vec![SkillEntry { level: 3, master_data: raw(200011, vec![201]) }],
    });
    assert_eq!(c.id, 1001);
    assert_eq!(c.name, "Special Week");
    assert_eq!(c.rank_score, 0);
    assert_eq!((c.speed, c.stamina, c.power, c.guts, c.wiz), (600, 601, 602, 603, 604));
    assert_eq!(c.proper_ground_turf, 8);
    assert_eq!(c.proper_running_style_oikomi, 1);
    assert_eq!(c.acquired_skills.len(), 1);
    assert_eq!(c.acquired_skills[0].level, 3);
    assert_eq!(c.acquired_skills[0].skill_tags, vec![SkillTag::Short]);
    let m = character_update_message(c);
    assert_eq!(m.message_type, MessageType::CharacterUpdate);
    match m.message {
        MessageData::CharacterUpdate(c) => assert_eq!(c.id, 1001),
        MessageData::SkillUpdate(_) => panic!("wrong payload"),
    }
}

#[test]
fn trained_character_keeps_rank_score() {
    let c = trainedcharadata_to_struct(RawTrainedCharaData {
        master_chara_id: 1002,
        name: String::from("Silence Suzuka"),
        rank_score: 12345,
        stats: stats(900),
        acquired_skills: vec![],
    });
    assert_eq!(c.id, 1002);
    assert_eq!(c.rank_score, 12345);
    assert_eq!(c.wiz, 904);
    assert!(c.acquired_skills.is_empty());
}

#[test]
fn probe_is_little_endian() {
    assert_eq!(u32_to_le_bytes(1), vec![1, 0, 0, 0]);
    assert_eq!(u32_to_le_bytes(0x01020304), vec![4, 3, 2, 1]);
    assert_eq!(u32_to_le_bytes(u32::MAX), vec![255, 255, 255, 255]);
    assert_eq!(u32_to_le_bytes(77777), 77777u32.to_le_bytes().to_vec());
}

#[test]
fn echoed_probe_delivers() {
    let mut session = RelaySession::new();
    assert_eq!(session.counter(), 0);
    assert!(session.is_open());
    let probe = session.begin_message();
    assert_eq!(session.counter(), 1);
    assert_eq!(probe, vec![1, 0, 0, 0]);
    assert_eq!(session.on_reply(Some(&probe)), ReplyDecision::Deliver);
    assert!(session.is_open());
    let probe = session.begin_message();
    assert_eq!(probe, vec![2, 0, 0, 0]);
    assert_eq!(session.on_reply(Some(&[2, 0, 0, 0, 9])), ReplyDecision::Deliver);
    assert_eq!(session.counter(), 2);
    assert!(session.can_begin());
}

#[test]
fn wrong_reply_requeues_and_closes() {
    let mut session = RelaySession::new();
    let _ = session.begin_message();
    assert_eq!(session.on_reply(Some(&[0, 0, 0, 1])), ReplyDecision::Requeue);
    assert!(!session.is_open());
    assert_eq!(session.counter(), 1);
}

#[test]
fn failed_read_requeues_and_closes() {
    let mut session = RelaySession::new();
    let _ = session.begin_message();
    assert_eq!(session.on_reply(None), ReplyDecision::Requeue);
    assert!(!session.is_open());
}

#[test]
fn any_echo_of_the_probe_delivers() {
    for n in 1u32..=300 {
        let mut session = RelaySession::new();
        let mut probe = Vec::new();
        for _ in 0..n {
            probe = session.begin_message();
            assert_eq!(session.on_reply(Some(&probe)), ReplyDecision::Deliver);
        }
        assert_eq!(u32::from_le_bytes([probe[0], probe[1], probe[2], probe[3]]), n);
    }
}

/// Runs a connection over queued messages and canned replies, as the
/// handler loop does: returns the messages sent and the one put back.
fn run(msgs: &[&str], replies: &[Option<Vec<u8>>]) -> (Vec<String>, Option<String>) {
    let mut session = RelaySession::new();
    let mut sent = Vec::new();
    for (msg, reply) in msgs.iter().zip(replies) {
        let _probe = session.begin_message();
        match session.on_reply(reply.as_deref()) {
            ReplyDecision::Deliver => sent.push(msg.to_string()),
            ReplyDecision::Requeue => return (sent, Some(msg.to_string())),
        }
    }
    (sent, None)
}

#[test]
fn relay_run_sends_in_order_or_puts_back_once() {
    let all_ok = vec![Some(vec![1, 0, 0, 0]), Some(vec![2, 0, 0, 0]), Some(vec![3, 0, 0, 0])];
    assert_eq!(run(&["a", "b", "c"], &all_ok), (vec!["a".into(), "b".into(), "c".into()], None));
    let second_bad = vec![Some(vec![1, 0, 0, 0]), Some(vec![1, 0, 0, 0]), Some(vec![3, 0, 0, 0])];
    assert_eq!(run(&["a", "b", "c"], &second_bad), (vec!["a".into()], Some("b".into())));
    let first_lost = vec![None, Some(vec![2, 0, 0, 0])];
    assert_eq!(run(&["a", "b"], &first_lost), (vec![], Some("a".into())));
}
