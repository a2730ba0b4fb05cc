//! The state of the consensus rules, in one shape for every server.
//!
//! A server before version 0.19 reports the state in two members: an array
//! `softforks`, whose entries say whether a rule is enforced, and an object
//! `bip9_softforks`, whose members give the version-bits deployment of a
//! rule. Later servers report one object `softforks`. This module takes the
//! two old members out of a result and turns them into the entries of the
//! new one.

use crate::error::{CoreError, Error};
use crate::json::{field, is_shadowed, lemma_member_of_name, lemma_members_of_push,
    lemma_models_of, lemma_unshadowed_member, members_of, models_of, present, shadowed, u32_of,
    u64_of, u8_of, i64_of, without_member, Json, JsonModel};
use vstd::prelude::*;

verus! {

/// The first version whose servers report the state in one object.
pub const UNIFIED_SINCE: usize = 190000;

/// How a rule came into force.
#[derive(Clone, Copy, Debug, PartialEq, Eq, Structural)]
pub enum SoftforkType {
    Buried,
    Bip9,
    Other,
}

/// Where a version-bits deployment stands.
#[derive(Clone, Copy, Debug, PartialEq, Eq, Structural)]
pub enum Bip9SoftforkStatus {
    Defined,
    Started,
    LockedIn,
    Active,
    Failed,
}

/// How the signalling for a deployment goes in the current period.
#[derive(Clone, Copy, Debug, PartialEq, Eq)]
pub struct Bip9SoftforkStatistics {
    pub period: u32,
    pub threshold: Option<u32>,
    pub elapsed: u32,
    pub count: u32,
    pub possible: Option<bool>,
}

/// A version-bits deployment.
#[derive(Clone, Copy, Debug, PartialEq, Eq)]
pub struct Bip9SoftforkInfo {
    pub status: Bip9SoftforkStatus,
    pub bit: Option<u8>,
    pub start_time: i64,
    pub timeout: u64,
    pub since: u32,
    pub statistics: Option<Bip9SoftforkStatistics>,
}

/// Status of a softfork.
#[derive(Clone, Copy, Debug, PartialEq, Eq)]
pub struct Softfork {
    pub type_: SoftforkType,
    pub bip9: Option<Bip9SoftforkInfo>,
    pub height: Option<u32>,
    pub active: bool,
}

/// The two members in which an old server reports the state.
#[derive(Debug, PartialEq)]
pub struct LegacySoftforks {
    /// The member `softforks`.
    pub softforks: Json,
    /// The member `bip9_softforks`.
    pub bip9_softforks: Json,
}

/// Whether a server of this version reports the state in the old shape.
pub fn reports_legacy_softforks(version: usize) -> (r: bool)
    ensures
        r == (version < UNIFIED_SINCE),
{
    version < UNIFIED_SINCE
}

/// A result without its two old members and with an empty object under
/// `softforks`.
pub open spec fn without_legacy(members: Map<Seq<char>, JsonModel>) -> JsonModel {
    JsonModel::Object(
        members.remove("bip9_softforks"@).remove("softforks"@).insert(
            "softforks"@,
            JsonModel::Object(Map::empty()),
        ),
    )
}

/// The two old members have different names.
proof fn lemma_names_differ()
    ensures
        "bip9_softforks"@ != "softforks"@,
{
    reveal_strlit("bip9_softforks");
    reveal_strlit("softforks");
    assert("bip9_softforks"@.len() != "softforks"@.len());
}

/// Taking the two old members out leaves every other member as it is, and
/// an empty object under `softforks`.
pub proof fn lemma_other_members_are_kept(members: Map<Seq<char>, JsonModel>, name: Seq<char>)
    requires
        name != "softforks"@,
        name != "bip9_softforks"@,
    ensures
        without_legacy(members)->Object_0.contains_key(name) == members.contains_key(name),
        members.contains_key(name) ==> without_legacy(members)->Object_0[name] == members[name],
        without_legacy(members)->Object_0.contains_key("softforks"@),
        without_legacy(members)->Object_0["softforks"@] == JsonModel::Object(Map::empty()),
        !without_legacy(members)->Object_0.contains_key("bip9_softforks"@),
{
    lemma_names_differ();
}

/// Takes the two old members out of the result of an old server and puts
/// an empty object in the place of `softforks`.
///
/// The result must be an object that has both members.
pub fn take_legacy_softforks(raw: Json) -> (r: Result<(Json, LegacySoftforks), Error>)
    ensures
        match r {
            Ok((rest, legacy)) => {
                &&& raw@ matches JsonModel::Object(members)
                &&& members.contains_key("bip9_softforks"@)
                &&& members.contains_key("softforks"@)
                &&& rest@ == without_legacy(members)
                &&& legacy.bip9_softforks@ == members["bip9_softforks"@]
                &&& legacy.softforks@ == members["softforks"@]
            },
            Err(e) => {
                &&& e == Error::BitcoinCoreRpcError(CoreError::UnexpectedStructure)
                &&& raw@ matches JsonModel::Object(members) ==> !members.contains_key(
                    "bip9_softforks"@,
                ) || !members.contains_key("softforks"@)
            },
        },
{
    let members = match raw {
        Json::Object(members) => members,
        _ => {
            return Err(Error::BitcoinCoreRpcError(CoreError::UnexpectedStructure));
        },
    };
    let ghost given = members_of(members@);
    let (members, bip9) = without_member(members, "bip9_softforks");
    let bip9_softforks = match bip9 {
        Some(v) => v,
        None => {
            return Err(Error::BitcoinCoreRpcError(CoreError::UnexpectedStructure));
        },
    };
    let (members, old) = without_member(members, "softforks");
    let softforks = match old {
        Some(v) => v,
        None => {
            proof {
                lemma_names_differ();
            }
            return Err(Error::BitcoinCoreRpcError(CoreError::UnexpectedStructure));
        },
    };
    let mut members = members;
    let placeholder = ("softforks".to_owned(), Json::Object(Vec::new()));
    proof {
        lemma_members_of_push(members@, placeholder);
        lemma_names_differ();
    }
    members.push(placeholder);
    Ok((Json::Object(members), LegacySoftforks { softforks, bip9_softforks }))
}

/// The entry that an element of the old array stands for: its `id`, and a
/// buried rule that is active if `reject.status` says so.
pub open spec fn buried_of(entry: JsonModel) -> Option<(Seq<char>, Softfork)> {
    match entry {
        JsonModel::Object(members) => match (field(members, "id"@), field(members, "reject"@)) {
            (JsonModel::String(id), JsonModel::Object(reject)) => match field(
                reject,
                "status"@,
            ) {
                JsonModel::Bool(active) => Some(
                    (
                        id,
                        Softfork {
                            type_: SoftforkType::Buried,
                            bip9: None,
                            height: None,
                            active,
                        },
                    ),
                ),
                _ => None,
            },
            _ => None,
        },
        _ => None,
    }
}

/// The status that a name stands for.
pub open spec fn status_of(name: Seq<char>) -> Option<Bip9SoftforkStatus> {
    if name == "defined"@ {
        Some(Bip9SoftforkStatus::Defined)
    } else if name == "started"@ {
        Some(Bip9SoftforkStatus::Started)
    } else if name == "locked_in"@ {
        Some(Bip9SoftforkStatus::LockedIn)
    } else if name == "active"@ {
        Some(Bip9SoftforkStatus::Active)
    } else if name == "failed"@ {
        Some(Bip9SoftforkStatus::Failed)
    } else {
        None
    }
}

/// An optional `u32`: none for `null`, the number for a number in range. The
/// outer `None` says that the value is neither.
pub open spec fn optional_u32_of(v: JsonModel) -> Option<Option<u32>> {
    if v is Null {
        Some(None)
    } else {
        match u32_of(v) {
            Some(n) => Some(Some(n)),
            None => None,
        }
    }
}

/// An optional `u8`, read as [`optional_u32_of`] reads.
pub open spec fn optional_u8_of(v: JsonModel) -> Option<Option<u8>> {
    if v is Null {
        Some(None)
    } else {
        match u8_of(v) {
            Some(n) => Some(Some(n)),
            None => None,
        }
    }
}

/// An optional boolean, read as [`optional_u32_of`] reads.
pub open spec fn optional_bool_of(v: JsonModel) -> Option<Option<bool>> {
    match v {
        JsonModel::Null => Some(None),
        JsonModel::Bool(b) => Some(Some(b)),
        _ => None,
    }
}

/// The statistics that an object holds. `period`, `elapsed` and `count` are
/// required; `threshold` and `possible` may be missing or `null`.
pub open spec fn statistics_of(v: JsonModel) -> Option<Bip9SoftforkStatistics> {
    match v {
        JsonModel::Object(members) => match (
            u32_of(field(members, "period"@)),
            optional_u32_of(field(members, "threshold"@)),
            u32_of(field(members, "elapsed"@)),
            u32_of(field(members, "count"@)),
            optional_bool_of(field(members, "possible"@)),
        ) {
            (Some(period), Some(threshold), Some(elapsed), Some(count), Some(possible)) => Some(
                Bip9SoftforkStatistics { period, threshold, elapsed, count, possible },
            ),
            _ => None,
        },
        _ => None,
    }
}

/// Optional statistics: none for `null`.
pub open spec fn optional_statistics_of(v: JsonModel) -> Option<Option<Bip9SoftforkStatistics>> {
    if v is Null {
        Some(None)
    } else {
        match statistics_of(v) {
            Some(s) => Some(Some(s)),
            None => None,
        }
    }
}

/// The deployment that a member of the old object holds. `status`,
/// `startTime`, `timeout` and `since` are required; `bit` and `statistics`
/// may be missing or `null`.
pub open spec fn bip9_info_of(v: JsonModel) -> Option<Bip9SoftforkInfo> {
    match v {
        JsonModel::Object(members) => match (
            field(members, "status"@),
            optional_u8_of(field(members, "bit"@)),
            i64_of(field(members, "startTime"@)),
            u64_of(field(members, "timeout"@)),
            u32_of(field(members, "since"@)),
            optional_statistics_of(field(members, "statistics"@)),
        ) {
            (
                JsonModel::String(name),
                Some(bit),
                Some(start_time),
                Some(timeout),
                Some(since),
                Some(statistics),
            ) => match status_of(name) {
                Some(status) => Some(
                    Bip9SoftforkInfo { status, bit, start_time, timeout, since, statistics },
                ),
                None => None,
            },
            _ => None,
        },
        _ => None,
    }
}

/// The entry that a deployment makes: a version-bits rule that is active
/// exactly if the status of the deployment is `Active`.
pub open spec fn bip9_entry(info: Bip9SoftforkInfo) -> Softfork {
    Softfork {
        type_: SoftforkType::Bip9,
        bip9: Some(info),
        height: None,
        active: info.status == Bip9SoftforkStatus::Active,
    }
}

/// The map that a list of entries stands for: a later entry replaces an
/// earlier one of the same name.
pub open spec fn softfork_map(entries: Seq<(String, Softfork)>) -> Map<Seq<char>, Softfork>
    decreases entries.len(),
{
    if entries.len() == 0 {
        Map::empty()
    } else {
        softfork_map(entries.drop_last()).insert(entries.last().0@, entries.last().1)
    }
}

/// Whether every element of the old array stands for an entry.
pub open spec fn all_buried(old: Seq<JsonModel>) -> bool {
    forall|i: int| 0 <= i < old.len() ==> (#[trigger] buried_of(old[i])) is Some
}

/// The entries of the old array, each under its `id`; a later element
/// replaces an earlier one with the same `id`.
pub open spec fn buried_map(old: Seq<JsonModel>) -> Map<Seq<char>, Softfork>
    decreases old.len(),
{
    if old.len() == 0 {
        Map::empty()
    } else {
        let (id, entry) = buried_of(old.last())->0;
        buried_map(old.drop_last()).insert(id, entry)
    }
}

/// Whether every member of the old object holds a deployment.
pub open spec fn all_bip9(members: Map<Seq<char>, JsonModel>) -> bool {
    forall|name: Seq<char>|
        members.contains_key(name) ==> (#[trigger] bip9_info_of(members[name])) is Some
}

/// The entries of the members of the old object under `names`, each under the
/// name of its member.
pub open spec fn bip9_map(members: Map<Seq<char>, JsonModel>, names: Set<Seq<char>>) -> Map<
    Seq<char>,
    Softfork,
> {
    Map::new(
        |name: Seq<char>| names.contains(name) && members.contains_key(name),
        |name: Seq<char>| bip9_entry(bip9_info_of(members[name])->0),
    )
}

/// The entries that the two old members stand for: those of the array, then
/// those of the object, which replace entries of the same name. `None` where
/// a member has the wrong shape.
pub open spec fn legacy_entries(softforks: JsonModel, bip9_softforks: JsonModel) -> Option<
    Map<Seq<char>, Softfork>,
> {
    match (softforks, bip9_softforks) {
        (JsonModel::Array(old), JsonModel::Object(members)) => if all_buried(old) && all_bip9(
            members,
        ) {
            Some(buried_map(old).union_prefer_right(bip9_map(members, members.dom())))
        } else {
            None
        },
        _ => None,
    }
}

/// Whether an entry has the shape of an entry of the new object that says no
/// more than the old members can say: a buried rule without deployment, or
/// a version-bits rule with its deployment that is active exactly if the
/// status of the deployment is `Active`; neither has a height.
pub open spec fn is_unified(entry: Softfork) -> bool {
    &&& entry.height is None
    &&& match entry.type_ {
        SoftforkType::Buried => entry.bip9 is None,
        SoftforkType::Bip9 => entry.bip9 matches Some(info) && entry.active == (info.status
            == Bip9SoftforkStatus::Active),
        SoftforkType::Other => false,
    }
}

/// Every entry of the old array is a buried rule in the shape of the new
/// object.
proof fn lemma_buried_map_is_unified(old: Seq<JsonModel>, name: Seq<char>)
    requires
        all_buried(old),
        buried_map(old).contains_key(name),
    ensures
        is_unified(buried_map(old)[name]),
        buried_map(old)[name].type_ == SoftforkType::Buried,
    decreases old.len(),
{
    let front = old.drop_last();
    assert(buried_of(old[old.len() - 1]) is Some);
    let (id, _) = buried_of(old.last())->0;
    if id != name {
        assert forall|i: int| 0 <= i < front.len() implies (#[trigger] buried_of(front[i])) is Some by {
            assert(front[i] == old[i]);
        }
        lemma_buried_map_is_unified(front, name);
    }
}

/// Every entry that the two old members stand for has the shape of an entry
/// of the new object. An entry that comes from the old object is a
/// version-bits rule, and any other is a buried rule.
pub proof fn lemma_legacy_entries_are_unified(
    softforks: JsonModel,
    bip9_softforks: JsonModel,
    name: Seq<char>,
)
    requires
        legacy_entries(softforks, bip9_softforks) is Some,
        legacy_entries(softforks, bip9_softforks)->0.contains_key(name),
    ensures
        is_unified(legacy_entries(softforks, bip9_softforks)->0[name]),
        legacy_entries(softforks, bip9_softforks)->0[name].type_ == (if bip9_softforks->Object_0.contains_key(
            name,
        ) {
            SoftforkType::Bip9
        } else {
            SoftforkType::Buried
        }),
{
    let old = softforks->Array_0;
    let members = bip9_softforks->Object_0;
    if !members.contains_key(name) {
        lemma_buried_map_is_unified(old, name);
    }
}

fn same_text(a: &str, b: &str) -> (r: bool)
    ensures
        r == (a@ == b@),
{
    a.to_owned() == b.to_owned()
}

/// The member `name` as a `u64`.
fn u64_at(members: &Vec<(String, Json)>, name: &str) -> (r: Option<u64>)
    ensures
        r == u64_of(field(members_of(members@), name@)),
{
    present(members, name)?.as_u64()
}

/// The member `name` as an `i64`.
fn i64_at(members: &Vec<(String, Json)>, name: &str) -> (r: Option<i64>)
    ensures
        r == i64_of(field(members_of(members@), name@)),
{
    present(members, name)?.as_i64()
}

/// The member `name` as a `u32`.
fn u32_at(members: &Vec<(String, Json)>, name: &str) -> (r: Option<u32>)
    ensures
        r == u32_of(field(members_of(members@), name@)),
{
    let n = u64_at(members, name)?;
    if n <= u32::MAX as u64 {
        Some(n as u32)
    } else {
        None
    }
}

/// The member `name` as an optional `u32`.
fn optional_u32_at(members: &Vec<(String, Json)>, name: &str) -> (r: Option<Option<u32>>)
    ensures
        r == optional_u32_of(field(members_of(members@), name@)),
{
    match present(members, name) {
        Some(_) => Some(Some(u32_at(members, name)?)),
        None => Some(None),
    }
}

/// The member `name` as an optional `u8`.
fn optional_u8_at(members: &Vec<(String, Json)>, name: &str) -> (r: Option<Option<u8>>)
    ensures
        r == optional_u8_of(field(members_of(members@), name@)),
{
    match present(members, name) {
        Some(_) => {
            let n = u64_at(members, name)?;
            if n <= u8::MAX as u64 {
                Some(Some(n as u8))
            } else {
                None
            }
        },
        None => Some(None),
    }
}

/// The member `name` as an optional boolean.
fn optional_bool_at(members: &Vec<(String, Json)>, name: &str) -> (r: Option<Option<bool>>)
    ensures
        r == optional_bool_of(field(members_of(members@), name@)),
{
    match present(members, name) {
        Some(v) => Some(Some(v.as_bool()?)),
        None => Some(None),
    }
}

/// The status that a name stands for.
fn read_status(name: &str) -> (r: Option<Bip9SoftforkStatus>)
    ensures
        r == status_of(name@),
{
    if same_text(name, "defined") {
        Some(Bip9SoftforkStatus::Defined)
    } else if same_text(name, "started") {
        Some(Bip9SoftforkStatus::Started)
    } else if same_text(name, "locked_in") {
        Some(Bip9SoftforkStatus::LockedIn)
    } else if same_text(name, "active") {
        Some(Bip9SoftforkStatus::Active)
    } else if same_text(name, "failed") {
        Some(Bip9SoftforkStatus::Failed)
    } else {
        None
    }
}

impl Bip9SoftforkStatistics {
    /// Reads statistics from their object.
    pub fn from_json(v: &Json) -> (r: Option<Bip9SoftforkStatistics>)
        ensures
            r == statistics_of(v@),
    {
        let members = v.as_object()?;
        let period = u32_at(members, "period")?;
        let threshold = optional_u32_at(members, "threshold")?;
        let elapsed = u32_at(members, "elapsed")?;
        let count = u32_at(members, "count")?;
        let possible = optional_bool_at(members, "possible")?;
        Some(Bip9SoftforkStatistics { period, threshold, elapsed, count, possible })
    }
}

impl Bip9SoftforkInfo {
    /// Reads a deployment from a member of the old object.
    pub fn from_json(v: &Json) -> (r: Option<Bip9SoftforkInfo>)
        ensures
            r == bip9_info_of(v@),
    {
        let members = v.as_object()?;
        let name = present(members, "status")?.as_str()?;
        let bit = optional_u8_at(members, "bit")?;
        let start_time = i64_at(members, "startTime")?;
        let timeout = u64_at(members, "timeout")?;
        let since = u32_at(members, "since")?;
        let statistics = match present(members, "statistics") {
            Some(s) => Some(Bip9SoftforkStatistics::from_json(s)?),
            None => None,
        };
        let status = read_status(name)?;
        Some(Bip9SoftforkInfo { status, bit, start_time, timeout, since, statistics })
    }
}

impl Softfork {
    /// The entry of an element of the old array, with its `id`.
    pub fn buried(entry: &Json) -> (r: Option<(String, Softfork)>)
        ensures
            match r {
                Some((id, softfork)) => buried_of(entry@) == Some((id@, softfork)),
                None => buried_of(entry@) is None,
            },
    {
        let members = entry.as_object()?;
        let id = present(members, "id")?.as_str()?.to_owned();
        let reject = present(members, "reject")?.as_object()?;
        let active = present(reject, "status")?.as_bool()?;
        Some((id, Softfork { type_: SoftforkType::Buried, bip9: None, height: None, active }))
    }

    /// The entry of a deployment.
    pub fn bip9(info: Bip9SoftforkInfo) -> (r: Softfork)
        ensures
            r == bip9_entry(info),
    {
        Softfork {
            type_: SoftforkType::Bip9,
            bip9: Some(info),
            height: None,
            active: match info.status {
                Bip9SoftforkStatus::Active => true,
                _ => false,
            },
        }
    }
}

/// Writing one more entry at the end writes it into the map.
pub proof fn lemma_softfork_map_push(entries: Seq<(String, Softfork)>, entry: (String, Softfork))
    ensures
        softfork_map(entries.push(entry)) == softfork_map(entries).insert(entry.0@, entry.1),
{
    assert(entries.push(entry).drop_last() =~= entries);
}

/// The names of the members before `upto` that no later member shadows.
pub open spec fn settled_names(members: Seq<(String, Json)>, upto: int) -> Set<Seq<char>> {
    Set::new(
        |name: Seq<char>|
            exists|j: int|
                0 <= j < upto && j < members.len() && #[trigger] members[j].0@ == name
                    && !is_shadowed(members, j),
    )
}

/// A member that a later one shadows adds no name to the settled ones.
proof fn lemma_settled_skip(members: Seq<(String, Json)>, k: int)
    requires
        0 <= k < members.len(),
        is_shadowed(members, k),
    ensures
        settled_names(members, k + 1) == settled_names(members, k),
{
    assert(settled_names(members, k + 1) =~= settled_names(members, k));
}

/// A member that no later one shadows adds its name to the settled ones.
proof fn lemma_settled_take(members: Seq<(String, Json)>, k: int)
    requires
        0 <= k < members.len(),
        !is_shadowed(members, k),
    ensures
        settled_names(members, k + 1) == settled_names(members, k).insert(members[k].0@),
{
    let before = settled_names(members, k);
    let after = settled_names(members, k + 1);
    let name = members[k].0@;
    assert forall|n: Seq<char>| before.insert(name).contains(n) implies after.contains(n) by {
        if n != name {
            let j = choose|j: int|
                0 <= j < k && j < members.len() && #[trigger] members[j].0@ == n && !is_shadowed(
                    members,
                    j,
                );
            assert(0 <= j < k + 1);
        }
    }
    assert(after =~= before.insert(name));
}

/// Once every member is passed, the settled names are the names of the
/// object.
proof fn lemma_settled_all(members: Seq<(String, Json)>)
    ensures
        settled_names(members, members.len() as int) == members_of(members).dom(),
{
    let done = settled_names(members, members.len() as int);
    assert forall|name: Seq<char>| members_of(members).contains_key(name) implies done.contains(
        name,
    ) by {
        let at = lemma_member_of_name(members, name);
    }
    assert forall|name: Seq<char>| done.contains(name) implies members_of(members).contains_key(
        name,
    ) by {
        let j = choose|j: int|
            0 <= j < members.len() && #[trigger] members[j].0@ == name && !is_shadowed(members, j);
        lemma_unshadowed_member(members, j);
    }
    assert(done =~= members_of(members).dom());
}

/// What is said of a member of `bip9_softforks` that is no deployment.
pub open spec fn not_a_deployment() -> Seq<char> {
    "a member of bip9_softforks is not a deployment"@
}

/// The entries that the two old members stand for, in a list whose later
/// entries replace earlier ones of the same name.
///
/// `text` is the result that the members were taken from, as text. The array
/// must hold well-formed elements and the other member must be an object,
/// else the structure is unexpected. A member of the object that is no
/// deployment is a failure to deserialize the response, which holds the
/// reason beside `text`.
pub fn convert_legacy_softforks(legacy: &LegacySoftforks, text: String) -> (r: Result<
    Vec<(String, Softfork)>,
    Error,
>)
    ensures
        match r {
            Ok(entries) => legacy_entries(legacy.softforks@, legacy.bip9_softforks@) == Some(
                softfork_map(entries@),
            ),
            Err(e) => {
                &&& legacy_entries(legacy.softforks@, legacy.bip9_softforks@) is None
                &&& if legacy.softforks@ matches JsonModel::Array(old) && all_buried(old)
                    && legacy.bip9_softforks@ is Object {
                    e matches Error::ResponseSerdeJson { err, text: kept } && err@
                        == not_a_deployment() && kept == text
                } else {
                    e == Error::BitcoinCoreRpcError(CoreError::UnexpectedStructure)
                }
            },
        },
{
    let mut out: Vec<(String, Softfork)> = Vec::new();
    let old = match legacy.softforks.as_array() {
        Some(old) => old,
        None => {
            return Err(Error::BitcoinCoreRpcError(CoreError::UnexpectedStructure));
        },
    };
    let ghost old_models = models_of(old@);
    proof {
        lemma_models_of(old@);
    }
    let mut i: usize = 0;
    while i < old.len()
        invariant
            i <= old.len(),
            legacy.softforks@ == JsonModel::Array(old_models),
            old_models == models_of(old@),
            old_models.len() == old.len(),
            forall|j: int| 0 <= j < old.len() ==> old_models[j] == #[trigger] old@[j]@,
            all_buried(old_models.take(i as int)),
            softfork_map(out@) == buried_map(old_models.take(i as int)),
        decreases old.len() - i,
    {
        match Softfork::buried(&old[i]) {
            Some(entry) => {
                proof {
                    lemma_softfork_map_push(out@, entry);
                    assert(old_models.take(i + 1).drop_last() =~= old_models.take(i as int));
                }
                out.push(entry);
            },
            None => {
                return Err(Error::BitcoinCoreRpcError(CoreError::UnexpectedStructure));
            },
        }
        i += 1;
    }
    proof {
        assert(old_models.take(old.len() as int) =~= old_models);
    }
    let members = match legacy.bip9_softforks.as_object() {
        Some(members) => members,
        None => {
            return Err(Error::BitcoinCoreRpcError(CoreError::UnexpectedStructure));
        },
    };
    let ghost given = members_of(members@);
    let ghost buried = buried_map(old_models);
    let mut k: usize = 0;
    while k < members.len()
        invariant
            k <= members.len(),
            legacy.softforks@ == JsonModel::Array(old_models),
            legacy.bip9_softforks@ == JsonModel::Object(given),
            all_buried(old_models),
            buried == buried_map(old_models),
            given == members_of(members@),
            forall|name: Seq<char>| #[trigger]
                settled_names(members@, k as int).contains(name) ==> given.contains_key(name)
                    && bip9_info_of(given[name]) is Some,
            softfork_map(out@) == buried.union_prefer_right(
                bip9_map(given, settled_names(members@, k as int)),
            ),
        decreases members.len() - k,
    {
        if shadowed(members, k) {
            proof {
                lemma_settled_skip(members@, k as int);
            }
        } else {
            proof {
                lemma_settled_take(members@, k as int);
                lemma_unshadowed_member(members@, k as int);
            }
            match Bip9SoftforkInfo::from_json(&members[k].1) {
                Some(info) => {
                    let entry = (members[k].0.clone(), Softfork::bip9(info));
                    proof {
                        lemma_softfork_map_push(out@, entry);
                        assert(bip9_map(given, settled_names(members@, k + 1)) =~= bip9_map(
                            given,
                            settled_names(members@, k as int),
                        ).insert(entry.0@, entry.1));
                        assert(buried.union_prefer_right(
                            bip9_map(given, settled_names(members@, k + 1)),
                        ) =~= buried.union_prefer_right(
                            bip9_map(given, settled_names(members@, k as int)),
                        ).insert(entry.0@, entry.1));
                    }
                    out.push(entry);
                },
                None => {
                    return Err(
                        Error::ResponseSerdeJson {
                            err: "a member of bip9_softforks is not a deployment".to_owned(),
                            text,
                        },
                    );
                },
            }
        }
        k += 1;
    }
    proof {
        lemma_settled_all(members@);
    }
    Ok(out)
}

} // verus!
