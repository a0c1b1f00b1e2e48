//! Where a backup goes: the choice among the mounted volumes, the free space
//! of the volume that holds a path, and the name of the backup directory.
use vstd::prelude::*;
use crate::text::to_chars;

verus! {

/// A mounted volume as it was at the moment of the query.
#[derive(Clone, Debug, PartialEq, Eq)]
pub struct Volume {
    pub mount_point: String,
    pub available_bytes: u64,
    pub is_removable: bool,
}

/// The volume at index `i` is removable, none that is removable has more free
/// space, and none before it has as much.
pub open spec fn is_best_removable(volumes: Seq<Volume>, i: int) -> bool {
    &&& 0 <= i < volumes.len()
    &&& volumes[i].is_removable
    &&& forall|j: int|
        0 <= j < volumes.len() && (#[trigger] volumes[j]).is_removable
            ==> volumes[j].available_bytes <= volumes[i].available_bytes
    &&& forall|j: int|
        0 <= j < i && (#[trigger] volumes[j]).is_removable ==> volumes[j].available_bytes
            < volumes[i].available_bytes
}

/// The index of the first `true` in `holds`, or their number if there is none.
pub open spec fn first_true(holds: Seq<bool>) -> int
    decreases holds.len(),
{
    if holds.len() == 0 || holds[0] {
        0
    } else {
        1 + first_true(holds.drop_first())
    }
}

/// The free space of the first volume that `holds` marks; none if it marks no
/// volume. `holds` says of each volume, in order, whether it holds the path in
/// question; a volume that it does not reach counts as not holding it.
pub open spec fn spec_first_holding(volumes: Seq<Volume>, holds: Seq<bool>) -> Option<u64> {
    if first_true(holds) < volumes.len() && first_true(holds) < holds.len() {
        Some(volumes[first_true(holds)].available_bytes)
    } else {
        None
    }
}

/// `holds` has an answer for each volume, and marks every volume whose mount
/// point is the path itself.
pub open spec fn answers_for(volumes: Seq<Volume>, path: Seq<char>, holds: Seq<bool>) -> bool {
    &&& holds.len() == volumes.len()
    &&& forall|i: int|
        0 <= i < volumes.len() && (#[trigger] volumes[i]).mount_point@ == path ==> holds[i]
}

/// What stands in `s` after the last occurrence of `c`; all of `s` if there
/// is none.
pub open spec fn last_segment(s: Seq<char>, c: char) -> Seq<char>
    decreases s.len(),
{
    if s.len() == 0 || s.last() == c {
        Seq::empty()
    } else {
        last_segment(s.drop_last(), c).push(s.last())
    }
}

/// The name of the backup of `src` under `dest`, made at the time that `stamp`
/// stands for: `dest`, then what follows the last backslash of `src`, then
/// `_backup_` and the stamp.
pub open spec fn spec_backup_name(src: Seq<char>, dest: Seq<char>, stamp: Seq<char>) -> Seq<char> {
    dest + last_segment(src, '\\') + "_backup_"@ + stamp
}

/// What `chrono` writes for the instant `seconds` after the beginning of 1970
/// (UTC) when it formats it after `pattern`; `None` for an instant that it
/// cannot hold.
pub uninterp spec fn utc_stamp(seconds: i64, pattern: Seq<char>) -> Option<Seq<char>>;

/// The name of the backup of `src` under `dest` with the time stamp of the
/// instant `seconds` after the beginning of 1970, written as year, month, day,
/// hour, minute and second.
pub open spec fn spec_generate_backup_name(src: Seq<char>, dest: Seq<char>, seconds: i64) -> Option<
    Seq<char>,
> {
    match utc_stamp(seconds, "%Y%m%d%H%M%S"@) {
        Some(stamp) => Some(spec_backup_name(src, dest, stamp)),
        None => None,
    }
}

/// The first `true` stands within the sequence or right after it, and none
/// stands before it.
pub proof fn lemma_first_true(holds: Seq<bool>)
    ensures
        0 <= first_true(holds) <= holds.len(),
        first_true(holds) < holds.len() ==> holds[first_true(holds)],
        forall|i: int| 0 <= i < first_true(holds) ==> !holds[i],
    decreases holds.len(),
{
    if holds.len() == 0 || holds[0] {
    } else {
        lemma_first_true(holds.drop_first());
        assert forall|i: int| 0 <= i < first_true(holds) implies !holds[i] by {
            if i > 0 {
                assert(holds[i] == holds.drop_first()[i - 1]);
            }
        }
    }
}

/// Where `c` stands just before the index `n`, or `n` is 0, and `c` does not
/// occur from `n` on, the last segment is what stands from `n` on.
pub proof fn lemma_last_segment_is(s: Seq<char>, c: char, n: int)
    requires
        0 <= n <= s.len(),
        n > 0 ==> s[n - 1] == c,
        forall|i: int| n <= i < s.len() ==> s[i] != c,
    ensures
        last_segment(s, c) == s.skip(n),
    decreases s.len() - n,
{
    if n < s.len() {
        lemma_last_segment_is(s.drop_last(), c, n);
    }
}

/// Chooses the destination of a backup: the removable volume with the most
/// free space, the first of them if several have as much. `None` if no volume
/// is removable.
pub fn choose_destination(volumes: &Vec<Volume>) -> (chosen: Option<usize>)
    ensures
        chosen is None <==> forall|j: int|
            0 <= j < volumes.len() ==> !(#[trigger] volumes[j]).is_removable,
        chosen matches Some(i) ==> is_best_removable(volumes@, i as int),
{
    let mut chosen: Option<usize> = None;
    let mut k: usize = 0;
    while k < volumes.len()
        invariant
            k <= volumes.len(),
            chosen is None <==> forall|j: int|
                0 <= j < k ==> !(#[trigger] volumes[j]).is_removable,
            chosen matches Some(i) ==> is_best_removable(volumes@.take(k as int), i as int),
        decreases volumes.len() - k,
    {
        if volumes[k].is_removable {
            match chosen {
                None => {
                    chosen = Some(k);
                },
                Some(i) => {
                    if volumes[k].available_bytes > volumes[i].available_bytes {
                        chosen = Some(k);
                    }
                },
            }
        }
        k += 1;
    }
    assert(volumes@.take(k as int) == volumes@);
    chosen
}

/// The mount point of the destination of a backup: that of the removable
/// volume with the most free space, the first of them if several have as
/// much. `None` if no volume is removable.
pub fn get_usb_path(volumes: &Vec<Volume>) -> (path: Option<String>)
    ensures
        path is None <==> forall|j: int|
            0 <= j < volumes.len() ==> !(#[trigger] volumes[j]).is_removable,
        path matches Some(p) ==> exists|i: int|
            is_best_removable(volumes@, i) && p@ == (#[trigger] volumes[i]).mount_point@,
{
    match choose_destination(volumes) {
        Some(i) => Some(volumes[i].mount_point.clone()),
        None => None,
    }
}

/// `std::path::Path::starts_with`: whether the components of `base` are the
/// first components of `path`. How a path falls into components depends on
/// the platform, so nothing is claimed of the answer.
#[verifier::external_body]
fn path_starts_with(path: &str, base: &str) -> bool {
    std::path::Path::new(path).starts_with(base)
}

/// The free space of the first volume that `holds` marks. `holds` says of
/// each volume, in order, whether it holds the path in question; a volume
/// that it does not reach counts as not holding it.
pub fn first_holding(volumes: &Vec<Volume>, holds: &Vec<bool>) -> (space: Option<u64>)
    ensures
        space == spec_first_holding(volumes@, holds@),
{
    let mut i: usize = 0;
    proof {
        lemma_first_true(holds@);
    }
    while i < holds.len() && i < volumes.len()
        invariant
            i <= holds.len(),
            i <= volumes.len(),
            i <= first_true(holds@) <= holds.len(),
            first_true(holds@) < holds.len() ==> holds[first_true(holds@)],
            forall|k: int| 0 <= k < first_true(holds@) ==> !holds[k],
        decreases holds.len() - i,
    {
        if holds[i] {
            return Some(volumes[i].available_bytes);
        }
        i += 1;
    }
    None
}

/// The free space of the volume that holds the path: of the first volume
/// whose mount point is the path itself or, as the platform reads paths,
/// begins it. `None` if no volume holds the path.
///
/// How the platform reads paths is not stated here, so the answers for the
/// volumes are some sequence `holds`; the result is what `first_holding` gives
/// for it. A path that is a mount point is always found.
pub fn get_available_space(volumes: &Vec<Volume>, path: &str) -> (space: Option<u64>)
    ensures
        exists|holds: Seq<bool>| #[trigger]
            answers_for(volumes@, path@, holds) && space == spec_first_holding(volumes@, holds),
        space matches Some(bytes) ==> exists|i: int|
            0 <= i < volumes.len() && (#[trigger] volumes[i]).available_bytes == bytes,
        (exists|i: int| 0 <= i < volumes.len() && (#[trigger] volumes[i]).mount_point@ == path@)
            ==> space is Some,
{
    let wanted = path.to_owned();
    let mut holds: Vec<bool> = Vec::new();
    let mut i: usize = 0;
    while i < volumes.len()
        invariant
            i <= volumes.len(),
            holds.len() == i,
            wanted@ == path@,
            forall|k: int|
                0 <= k < i && (#[trigger] volumes[k]).mount_point@ == path@ ==> holds[k],
        decreases volumes.len() - i,
    {
        let mount_point = &volumes[i].mount_point;
        holds.push(*mount_point == wanted || path_starts_with(path, mount_point.as_str()));
        i += 1;
    }
    let space = first_holding(volumes, &holds);
    proof {
        lemma_first_true(holds@);
        assert(answers_for(volumes@, path@, holds@));
    }
    space
}

/// `chrono::DateTime::from_timestamp` for the instant `seconds` after the
/// beginning of 1970, written by `DateTime::format` after the pattern for
/// year, month, day, hour, minute and second; `None` for an instant that
/// `chrono` cannot hold. What is written depends on the seconds and the
/// pattern alone; it is `utc_stamp` of them, and nothing more is claimed.
#[verifier::external_body]
fn format_utc(seconds: i64, pattern: &str) -> (stamp: Option<String>)
    requires
        pattern@ == "%Y%m%d%H%M%S"@,
    ensures
        match stamp {
            Some(text) => utc_stamp(seconds, pattern@) == Some(text@),
            None => utc_stamp(seconds, pattern@) is None,
        },
{
    match chrono::DateTime::from_timestamp(seconds, 0) {
        Some(time) => Some(time.format(pattern).to_string()),
        None => None,
    }
}

/// The name of the backup of `src` under `dest` with the given time stamp.
pub fn backup_name(src: &str, dest: &str, stamp: &str) -> (name: String)
    ensures
        name@ == spec_backup_name(src@, dest@, stamp@),
{
    let chars = to_chars(src);
    let mut start: usize = chars.len();
    while start > 0 && chars[start - 1] != '\\'
        invariant
            start <= chars.len(),
            forall|i: int| start <= i < chars.len() ==> chars[i] != '\\',
        decreases start,
    {
        start -= 1;
    }
    proof {
        lemma_last_segment_is(chars@, '\\', start as int);
    }
    let mut name = dest.to_owned();
    let mut i: usize = start;
    while i < chars.len()
        invariant
            start <= i <= chars.len(),
            name@ == dest@ + chars@.subrange(start as int, i as int),
        decreases chars.len() - i,
    {
        name.push(chars[i]);
        i += 1;
    }
    name.append("_backup_");
    name.append(stamp);
    name
}

/// The name of the backup of `src` under `dest`, made at the instant `seconds`
/// after the beginning of 1970: the name with the time stamp that `chrono`
/// writes for that instant. `None` for an instant that `chrono` cannot hold.
pub fn generate_backup_name(src: &str, dest: &str, seconds: i64) -> (name: Option<String>)
    ensures
        match name {
            Some(text) => Some(text@) == spec_generate_backup_name(src@, dest@, seconds),
            None => spec_generate_backup_name(src@, dest@, seconds) is None,
        },
{
    match format_utc(seconds, "%Y%m%d%H%M%S") {
        Some(stamp) => Some(backup_name(src, dest, stamp.as_str())),
        None => None,
    }
}

} // verus!
