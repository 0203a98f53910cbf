//! Characters: the stats read from a trainee in a training run or from a
//! finished trainee, and the `CharacterData` that the web page receives.
use vstd::prelude::*;
use crate::skill::{SkillData, SkillEntry, describes_entries, entries_to_skills};

verus! {

/// The fourteen stats and aptitudes the web page shows.
#[derive(Clone, Copy, Debug)]
pub struct CharaStats {
    pub speed: i32,
    pub stamina: i32,
    pub power: i32,
    pub guts: i32,
    pub wiz: i32,
    pub proper_ground_turf: i32,
    pub proper_ground_dirt: i32,
    pub proper_distance_short: i32,
    pub proper_distance_mile: i32,
    pub proper_distance_middle: i32,
    pub proper_distance_long: i32,
    pub proper_running_style_nige: i32,
    pub proper_running_style_senko: i32,
    pub proper_running_style_sashi: i32,
    pub proper_running_style_oikomi: i32,
}

/// What is read from a trainee in the middle of a training run.
pub struct RawWorkCharaData {
    pub chara_id: i32,
    /// The character name of the trainee's card.
    pub chara_name: String,
    pub stats: CharaStats,
    pub acquired_skills: Vec<SkillEntry>,
}

/// What is read from a finished trainee.
pub struct RawTrainedCharaData {
    /// The id of the trainee's master character record.
    pub master_chara_id: i32,
    pub name: String,
    pub rank_score: i32,
    pub stats: CharaStats,
    pub acquired_skills: Vec<SkillEntry>,
}

/// A character as the web page receives it.
#[derive(Debug)]
pub struct CharacterData {
    pub id: i32,
    pub name: String,
    pub rank_score: i32,
    pub speed: i32,
    pub stamina: i32,
    pub power: i32,
    pub guts: i32,
    pub wiz: i32,
    pub proper_ground_turf: i32,
    pub proper_ground_dirt: i32,
    pub proper_distance_short: i32,
    pub proper_distance_mile: i32,
    pub proper_distance_middle: i32,
    pub proper_distance_long: i32,
    pub proper_running_style_nige: i32,
    pub proper_running_style_senko: i32,
    pub proper_running_style_sashi: i32,
    pub proper_running_style_oikomi: i32,
    pub acquired_skills: Vec<SkillData>,
}

/// `c` carries the stats `s`.
pub open spec fn has_stats(c: CharacterData, s: CharaStats) -> bool {
    &&& c.speed == s.speed
    &&& c.stamina == s.stamina
    &&& c.power == s.power
    &&& c.guts == s.guts
    &&& c.wiz == s.wiz
    &&& c.proper_ground_turf == s.proper_ground_turf
    &&& c.proper_ground_dirt == s.proper_ground_dirt
    &&& c.proper_distance_short == s.proper_distance_short
    &&& c.proper_distance_mile == s.proper_distance_mile
    &&& c.proper_distance_middle == s.proper_distance_middle
    &&& c.proper_distance_long == s.proper_distance_long
    &&& c.proper_running_style_nige == s.proper_running_style_nige
    &&& c.proper_running_style_senko == s.proper_running_style_senko
    &&& c.proper_running_style_sashi == s.proper_running_style_sashi
    &&& c.proper_running_style_oikomi == s.proper_running_style_oikomi
}

fn character_data(
    id: i32,
    name: String,
    rank_score: i32,
    s: CharaStats,
    acquired_skills: Vec<SkillData>,
) -> (c: CharacterData)
    ensures
        c.id == id,
        c.name == name,
        c.rank_score == rank_score,
        has_stats(c, s),
        c.acquired_skills@ == acquired_skills@,
{
    CharacterData {
        id,
        name,
        rank_score,
        speed: s.speed,
        stamina: s.stamina,
        power: s.power,
        guts: s.guts,
        wiz: s.wiz,
        proper_ground_turf: s.proper_ground_turf,
        proper_ground_dirt: s.proper_ground_dirt,
        proper_distance_short: s.proper_distance_short,
        proper_distance_mile: s.proper_distance_mile,
        proper_distance_middle: s.proper_distance_middle,
        proper_distance_long: s.proper_distance_long,
        proper_running_style_nige: s.proper_running_style_nige,
        proper_running_style_senko: s.proper_running_style_senko,
        proper_running_style_sashi: s.proper_running_style_sashi,
        proper_running_style_oikomi: s.proper_running_style_oikomi,
        acquired_skills,
    }
}

/// The character of a trainee in a training run: it has no rank score yet,
/// which is reported as 0.
pub fn worksinglemodecharadata_to_struct(work_single_mode_chara_data: RawWorkCharaData) -> (c:
    CharacterData)
    ensures
        c.id == work_single_mode_chara_data.chara_id,
        c.name == work_single_mode_chara_data.chara_name,
        c.rank_score == 0,
        has_stats(c, work_single_mode_chara_data.stats),
        describes_entries(c.acquired_skills@, work_single_mode_chara_data.acquired_skills@),
{
    let RawWorkCharaData { chara_id, chara_name, stats, acquired_skills } =
        work_single_mode_chara_data;
    let skills = entries_to_skills(acquired_skills);
    character_data(chara_id, chara_name, 0, stats, skills)
}

/// The character of a finished trainee, with its rank score.
pub fn trainedcharadata_to_struct(trained_chara_data: RawTrainedCharaData) -> (c: CharacterData)
    ensures
        c.id == trained_chara_data.master_chara_id,
        c.name == trained_chara_data.name,
        c.rank_score == trained_chara_data.rank_score,
        has_stats(c, trained_chara_data.stats),
        describes_entries(c.acquired_skills@, trained_chara_data.acquired_skills@),
{
    let RawTrainedCharaData { master_chara_id, name, rank_score, stats, acquired_skills } =
        trained_chara_data;
    let skills = entries_to_skills(acquired_skills);
    character_data(master_chara_id, name, rank_score, stats, skills)
}

} // verus!
