//! Skills: the tags the game attaches to them, the raw fields read from a
//! skill's master record, and the `SkillData` that the web page receives.
use vstd::prelude::*;

verus! {

/// A skill's tag, as the game numbers them.
#[allow(non_camel_case_types)]
#[derive(Clone, Copy, Debug, PartialEq, Eq, Structural)]
pub enum SkillTag {
    RunningStyleBegin,
    Nige,
    Senko,
    Sashi,
    Oikomi,
    RunningStyleEnd,
    DistanceBegin,
    Short,
    Mile,
    Middle,
    Long,
    DistanceEnd,
    SPEED,
    STAMINA,
    POWER,
    GUTS,
    WIZ,
    DOWN,
    SPECIAL,
    GroundBegin,
    Turf,
    Dirt,
    GroundEnd,
    ScenarioBegin,
    ScenarioEnd,
}

/// The game's number for a tag.
pub open spec fn tag_code(t: SkillTag) -> int {
    match t {
        SkillTag::RunningStyleBegin => 100,
        SkillTag::Nige => 101,
        SkillTag::Senko => 102,
        SkillTag::Sashi => 103,
        SkillTag::Oikomi => 104,
        SkillTag::RunningStyleEnd => 199,
        SkillTag::DistanceBegin => 200,
        SkillTag::Short => 201,
        SkillTag::Mile => 202,
        SkillTag::Middle => 203,
        SkillTag::Long => 204,
        SkillTag::DistanceEnd => 299,
        SkillTag::SPEED => 401,
        SkillTag::STAMINA => 402,
        SkillTag::POWER => 403,
        SkillTag::GUTS => 404,
        SkillTag::WIZ => 405,
        SkillTag::DOWN => 406,
        SkillTag::SPECIAL => 407,
        SkillTag::GroundBegin => 500,
        SkillTag::Turf => 501,
        SkillTag::Dirt => 502,
        SkillTag::GroundEnd => 599,
        SkillTag::ScenarioBegin => 800,
        SkillTag::ScenarioEnd => 899,
    }
}

/// The tag that the game numbers `v`, if there is one.
pub open spec fn tag_of_code(v: int) -> Option<SkillTag> {
    if v == 100 {
        Some(SkillTag::RunningStyleBegin)
    } else if v == 101 {
        Some(SkillTag::Nige)
    } else if v == 102 {
        Some(SkillTag::Senko)
    } else if v == 103 {
        Some(SkillTag::Sashi)
    } else if v == 104 {
        Some(SkillTag::Oikomi)
    } else if v == 199 {
        Some(SkillTag::RunningStyleEnd)
    } else if v == 200 {
        Some(SkillTag::DistanceBegin)
    } else if v == 201 {
        Some(SkillTag::Short)
    } else if v == 202 {
        Some(SkillTag::Mile)
    } else if v == 203 {
        Some(SkillTag::Middle)
    } else if v == 204 {
        Some(SkillTag::Long)
    } else if v == 299 {
        Some(SkillTag::DistanceEnd)
    } else if v == 401 {
        Some(SkillTag::SPEED)
    } else if v == 402 {
        Some(SkillTag::STAMINA)
    } else if v == 403 {
        Some(SkillTag::POWER)
    } else if v == 404 {
        Some(SkillTag::GUTS)
    } else if v == 405 {
        Some(SkillTag::WIZ)
    } else if v == 406 {
        Some(SkillTag::DOWN)
    } else if v == 407 {
        Some(SkillTag::SPECIAL)
    } else if v == 500 {
        Some(SkillTag::GroundBegin)
    } else if v == 501 {
        Some(SkillTag::Turf)
    } else if v == 502 {
        Some(SkillTag::Dirt)
    } else if v == 599 {
        Some(SkillTag::GroundEnd)
    } else if v == 800 {
        Some(SkillTag::ScenarioBegin)
    } else if v == 899 {
        Some(SkillTag::ScenarioEnd)
    } else {
        None
    }
}

/// Every tag is found again from its number, and a number names at most
/// one tag: the conversion in each direction undoes the other.
pub proof fn law_tag_code_roundtrip(t: SkillTag, v: int)
    ensures
        tag_of_code(tag_code(t)) == Some(t),
        tag_of_code(v) matches Some(u) ==> tag_code(u) == v,
{
}

impl SkillTag {
    /// The game's number for this tag.
    pub fn code(&self) -> (c: isize)
        ensures
            c == tag_code(*self),
    {
        match self {
            SkillTag::RunningStyleBegin => 100,
            SkillTag::Nige => 101,
            SkillTag::Senko => 102,
            SkillTag::Sashi => 103,
            SkillTag::Oikomi => 104,
            SkillTag::RunningStyleEnd => 199,
            SkillTag::DistanceBegin => 200,
            SkillTag::Short => 201,
            SkillTag::Mile => 202,
            SkillTag::Middle => 203,
            SkillTag::Long => 204,
            SkillTag::DistanceEnd => 299,
            SkillTag::SPEED => 401,
            SkillTag::STAMINA => 402,
            SkillTag::POWER => 403,
            SkillTag::GUTS => 404,
            SkillTag::WIZ => 405,
            SkillTag::DOWN => 406,
            SkillTag::SPECIAL => 407,
            SkillTag::GroundBegin => 500,
            SkillTag::Turf => 501,
            SkillTag::Dirt => 502,
            SkillTag::GroundEnd => 599,
            SkillTag::ScenarioBegin => 800,
            SkillTag::ScenarioEnd => 899,
        }
    }

    /// The tag numbered `v`, or `v` back where no tag has that number.
    pub fn try_from_code(v: isize) -> (r: Result<SkillTag, isize>)
        ensures
            r == (match tag_of_code(v as int) {
                Some(t) => Ok::<SkillTag, isize>(t),
                None => Err(v),
            }),
    {
        if v == 100 {
            Ok(SkillTag::RunningStyleBegin)
        } else if v == 101 {
            Ok(SkillTag::Nige)
        } else if v == 102 {
            Ok(SkillTag::Senko)
        } else if v == 103 {
            Ok(SkillTag::Sashi)
        } else if v == 104 {
            Ok(SkillTag::Oikomi)
        } else if v == 199 {
            Ok(SkillTag::RunningStyleEnd)
        } else if v == 200 {
            Ok(SkillTag::DistanceBegin)
        } else if v == 201 {
            Ok(SkillTag::Short)
        } else if v == 202 {
            Ok(SkillTag::Mile)
        } else if v == 203 {
            Ok(SkillTag::Middle)
        } else if v == 204 {
            Ok(SkillTag::Long)
        } else if v == 299 {
            Ok(SkillTag::DistanceEnd)
        } else if v == 401 {
            Ok(SkillTag::SPEED)
        } else if v == 402 {
            Ok(SkillTag::STAMINA)
        } else if v == 403 {
            Ok(SkillTag::POWER)
        } else if v == 404 {
            Ok(SkillTag::GUTS)
        } else if v == 405 {
            Ok(SkillTag::WIZ)
        } else if v == 406 {
            Ok(SkillTag::DOWN)
        } else if v == 407 {
            Ok(SkillTag::SPECIAL)
        } else if v == 500 {
            Ok(SkillTag::GroundBegin)
        } else if v == 501 {
            Ok(SkillTag::Turf)
        } else if v == 502 {
            Ok(SkillTag::Dirt)
        } else if v == 599 {
            Ok(SkillTag::GroundEnd)
        } else if v == 800 {
            Ok(SkillTag::ScenarioBegin)
        } else if v == 899 {
            Ok(SkillTag::ScenarioEnd)
        } else {
            Err(v)
        }
    }
}

/// The tags among `codes` that the game defines, in order; unknown numbers
/// are dropped.
pub open spec fn known_tags(codes: Seq<i32>) -> Seq<SkillTag>
    decreases codes.len(),
{
    if codes.len() == 0 {
        Seq::empty()
    } else {
        let prev = known_tags(codes.drop_last());
        match tag_of_code(codes.last() as int) {
            Some(t) => prev.push(t),
            None => prev,
        }
    }
}

/// The game's tag table: each tag's number, as the game defines them.
pub proof fn law_tag_numbers()
    ensures
        tag_code(SkillTag::RunningStyleBegin) == 100,
        tag_code(SkillTag::Nige) == 101,
        tag_code(SkillTag::Senko) == 102,
        tag_code(SkillTag::Sashi) == 103,
        tag_code(SkillTag::Oikomi) == 104,
        tag_code(SkillTag::RunningStyleEnd) == 199,
        tag_code(SkillTag::DistanceBegin) == 200,
        tag_code(SkillTag::Short) == 201,
        tag_code(SkillTag::Mile) == 202,
        tag_code(SkillTag::Middle) == 203,
        tag_code(SkillTag::Long) == 204,
        tag_code(SkillTag::DistanceEnd) == 299,
        tag_code(SkillTag::SPEED) == 401,
        tag_code(SkillTag::STAMINA) == 402,
        tag_code(SkillTag::POWER) == 403,
        tag_code(SkillTag::GUTS) == 404,
        tag_code(SkillTag::WIZ) == 405,
        tag_code(SkillTag::DOWN) == 406,
        tag_code(SkillTag::SPECIAL) == 407,
        tag_code(SkillTag::GroundBegin) == 500,
        tag_code(SkillTag::Turf) == 501,
        tag_code(SkillTag::Dirt) == 502,
        tag_code(SkillTag::GroundEnd) == 599,
        tag_code(SkillTag::ScenarioBegin) == 800,
        tag_code(SkillTag::ScenarioEnd) == 899,
        forall|v: int| #[trigger] tag_of_code(v) is Some <==> exists|t: SkillTag| tag_code(t) == v,
{
    assert forall|v: int| #[trigger] tag_of_code(v) is Some implies exists|t: SkillTag|
        tag_code(t) == v by {
        let t = tag_of_code(v).unwrap();
        assert(tag_code(t) == v);
    }
    assert forall|v: int| (exists|t: SkillTag| tag_code(t) == v) implies #[trigger] tag_of_code(
        v,
    ) is Some by {
        let t = choose|t: SkillTag| tag_code(t) == v;
        law_tag_code_roundtrip(t, v);
    }
}

/// `x / 10` as Rust computes it on integers: rounded toward zero.
pub open spec fn div_ten(x: int) -> int {
    if x >= 0 {
        x / 10
    } else {
        -((-x) / 10)
    }
}

/// Tags are read code by code: the tags of two runs of codes one after the
/// other are the tags of the first then those of the second; a single code
/// gives its tag where the game defines one and nothing otherwise; and every
/// known code's tag is among the tags.
pub proof fn law_known_tags(a: Seq<i32>, b: Seq<i32>, c: i32)
    ensures
        known_tags(a + b) =~= known_tags(a) + known_tags(b),
        known_tags(seq![c]) =~= (match tag_of_code(c as int) {
            Some(t) => seq![t],
            None => Seq::<SkillTag>::empty(),
        }),
        forall|i: int|
            0 <= i < a.len() && tag_of_code(#[trigger] a[i] as int) is Some ==> known_tags(
                a,
            ).contains(tag_of_code(a[i] as int).unwrap()),
    decreases b.len(),
{
    assert(seq![c].drop_last() =~= Seq::<i32>::empty());
    assert(seq![c].last() == c);
    assert(known_tags(Seq::<i32>::empty()) =~= Seq::<SkillTag>::empty());
    assert(known_tags(seq![c]) =~= (match tag_of_code(c as int) {
        Some(t) => seq![t],
        None => Seq::<SkillTag>::empty(),
    }));
    if b.len() > 0 {
        law_known_tags(a, b.drop_last(), c);
        assert((a + b).drop_last() =~= a + b.drop_last());
    } else {
        assert(a + b =~= a);
    }
    assert forall|i: int|
        0 <= i < a.len() && tag_of_code(#[trigger] a[i] as int) is Some implies known_tags(
        a,
    ).contains(tag_of_code(a[i] as int).unwrap()) by {
        lemma_known_tag_member(a, i, tag_of_code(a[i] as int).unwrap());
    }
}

proof fn lemma_known_tag_member(a: Seq<i32>, i: int, t: SkillTag)
    requires
        0 <= i < a.len(),
        tag_of_code(a[i] as int) == Some(t),
    ensures
        known_tags(a).contains(t),
    decreases a.len(),
{
    if i == a.len() - 1 {
        let k = known_tags(a);
        assert(k[k.len() - 1] == t);
    } else {
        let d = a.drop_last();
        assert(d[i] == a[i]);
        lemma_known_tag_member(d, i, t);
        let kd = known_tags(d);
        let j = choose|j: int| 0 <= j < kd.len() && kd[j] == t;
        assert(known_tags(a)[j] == t);
    }
}

/// The fields of a skill's master record that the web page is told about.
pub struct RawSkillData {
    pub id: i32,
    pub name: String,
    pub rarity: i32,
    pub remark: String,
    /// The numbers in the record's tag list, in order.
    pub tag_codes: Vec<i32>,
    pub grade_value: i32,
    /// The record's level-up flag byte.
    pub level_up_flag: u8,
    /// What the record's unique-skill query answered, as a byte.
    pub unique_flag: u8,
}

/// A skill as one entry of a list that also carries its level: an acquired
/// skill of a trainee, or a row of the skill-learning list.
pub struct SkillEntry {
    pub level: i32,
    pub master_data: RawSkillData,
}

/// A skill as the web page receives it.
#[derive(Debug)]
pub struct SkillData {
    pub id: i32,
    pub name: String,
    pub group_id: i32,
    pub rarity: i32,
    pub level: i32,
    pub remark: String,
    pub skill_tags: Vec<SkillTag>,
    pub grade_value: i32,
    pub is_level_up: bool,
    pub is_unique_skill: bool,
}

/// `s` is the skill of record `raw`, reported at `level` in group `group_id`.
pub open spec fn describes(s: SkillData, raw: RawSkillData, level: int, group_id: int) -> bool {
    &&& s.id == raw.id
    &&& s.name == raw.name
    &&& s.group_id == group_id
    &&& s.rarity == raw.rarity
    &&& s.level == level
    &&& s.remark == raw.remark
    &&& s.skill_tags@ == known_tags(raw.tag_codes@)
    &&& s.grade_value == raw.grade_value
    &&& s.is_level_up == (raw.level_up_flag != 0)
    &&& s.is_unique_skill == (raw.unique_flag != 0)
}

/// `s` is the skill of the list entry `e`: its record, at its level, in the
/// group that the record's id names.
pub open spec fn describes_entry(s: SkillData, e: SkillEntry) -> bool {
    describes(s, e.master_data, e.level as int, div_ten(e.master_data.id as int))
}

/// The skills of the entries `es`, one for one and in order.
pub open spec fn describes_entries(ss: Seq<SkillData>, es: Seq<SkillEntry>) -> bool {
    &&& ss.len() == es.len()
    &&& forall|i: int| 0 <= i < ss.len() ==> describes_entry(#[trigger] ss[i], es[i])
}

/// The tags of a record, unknown numbers dropped.
fn known_skill_tags(codes: &Vec<i32>) -> (tags: Vec<SkillTag>)
    ensures
        tags@ == known_tags(codes@),
{
    let mut tags: Vec<SkillTag> = Vec::new();
    let n = codes.len();
    for j in 0..n
        invariant
            n == codes@.len(),
            tags@ == known_tags(codes@.take(j as int)),
    {
        proof {
            assert(codes@.take(j + 1).drop_last() =~= codes@.take(j as int));
            assert(codes@.take(j + 1).last() == codes@[j as int]);
        }
        match SkillTag::try_from_code(codes[j] as isize) {
            Ok(t) => tags.push(t),
            Err(_) => {},
        }
    }
    assert(codes@.take(n as int) =~= codes@);
    tags
}

/// The skill of a master record, at level 0, in the group `id / 10`.
pub fn skilldata_to_struct(raw: RawSkillData) -> (s: SkillData)
    ensures
        describes(s, raw, 0, div_ten(raw.id as int)),
{
    let skill_tags = known_skill_tags(&raw.tag_codes);
    let RawSkillData { id, name, rarity, remark, tag_codes: _, grade_value, level_up_flag, unique_flag } = raw;
    SkillData {
        id,
        name,
        group_id: id / 10,
        rarity,
        level: 0,
        remark,
        skill_tags,
        grade_value,
        is_level_up: level_up_flag != 0,
        is_unique_skill: unique_flag != 0,
    }
}

/// The skill of a list entry: its record's skill at the entry's level.
pub fn acquiredskill_to_struct(acquired_skill: SkillEntry) -> (s: SkillData)
    ensures
        describes_entry(s, acquired_skill),
{
    let SkillEntry { level, master_data } = acquired_skill;
    let mut output = skilldata_to_struct(master_data);
    output.level = level;
    output
}

/// The skills of a list of entries, one for one and in order.
pub fn entries_to_skills(entries: Vec<SkillEntry>) -> (skills: Vec<SkillData>)
    ensures
        describes_entries(skills@, entries@),
{
    let ghost all = entries@;
    let mut rest = entries;
    let mut skills: Vec<SkillData> = Vec::new();
    while rest.len() > 0
        invariant
            skills@.len() + rest@.len() == all.len(),
            rest@ == all.skip(skills@.len() as int),
            forall|i: int| 0 <= i < skills@.len() ==> describes_entry(#[trigger] skills@[i], all[i]),
        decreases rest@.len(),
    {
        let ghost k = skills@.len() as int;
        let e = rest.remove(0);
        assert(rest@ =~= all.skip(k + 1));
        let s = acquiredskill_to_struct(e);
        skills.push(s);
        assert(skills@[k] == s);
    }
    skills
}

/// The skills that a click on a row of the skill-learning list reports: the
/// entries the click concerns (the row's top entry for a `+`, all of its
/// entries for a `-`), each at its own level.
pub fn on_click_list_item_common(infos: Vec<SkillEntry>) -> (skills: Vec<SkillData>)
    ensures
        describes_entries(skills@, infos@),
{
    entries_to_skills(infos)
}

/// The skill record that the upgrade of skill `original_id` into
/// `result_id` reports: the result where there is one (`result_id != 0`),
/// else the original.
pub fn evo_skill_lookup_id(original_id: i32, result_id: i32) -> (id: i32)
    ensures
        id == if result_id != 0 {
            result_id
        } else {
            original_id
        },
{
    if result_id != 0 {
        result_id
    } else {
        original_id
    }
}

/// The skill that an upgrade reports, from the record that
/// `evo_skill_lookup_id` named: where there is a result skill it keeps the
/// original skill's group, else it is the original skill as it stands.
pub fn evo_skill_data(original_id: i32, result_id: i32, looked_up: RawSkillData) -> (s: SkillData)
    ensures
        describes(
            s,
            looked_up,
            0,
            if result_id != 0 {
                div_ten(original_id as int)
            } else {
                div_ten(looked_up.id as int)
            },
        ),
{
    let mut skill = skilldata_to_struct(looked_up);
    if result_id != 0 {
        skill.group_id = original_id / 10;
    }
    skill
}

} // verus!
