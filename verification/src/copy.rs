//! The copy of a directory tree, planned on a listing of the tree: which
//! files the extension filter selects, how much space they need, where under
//! the destination they go, and the operations that put them there.
//!
//! Paths are relative and held by their components: a source path leads from
//! the root of the source, a target path from the root of the destination.
use vstd::prelude::*;
use crate::text::{decimal, from_chars, spec_decimal, texts, to_chars};

verus! {

/// One file or directory of the source tree. `path` leads to it from the
/// root of the source; `size` is its length in bytes and counts for files
/// only.
#[derive(Clone, Debug, PartialEq, Eq)]
pub struct SourceEntry {
    pub path: Vec<String>,
    pub size: u64,
    pub is_directory: bool,
}

/// The mathematical view of a `SourceEntry`.
pub struct EntryView {
    pub path: Seq<Seq<char>>,
    pub size: u64,
    pub is_directory: bool,
}

impl View for SourceEntry {
    type V = EntryView;

    open spec fn view(&self) -> EntryView {
        EntryView { path: texts(self.path@), size: self.size, is_directory: self.is_directory }
    }
}

/// What the destination directory is like before the copy.
#[derive(Clone, Copy, Debug, PartialEq, Eq, Structural)]
pub enum DestinationState {
    /// It does not exist.
    Missing,
    /// It exists and holds nothing.
    Empty,
    /// It exists and holds something.
    Occupied,
}

/// One step of a copy.
#[derive(Clone, Debug, PartialEq, Eq)]
pub enum Operation {
    /// Make the directory at `path` under the destination, unless it is
    /// there.
    CreateDirectory { path: Vec<String> },
    /// Copy the file at `source` under the source root, `size` bytes long, to
    /// `target` under the destination.
    CopyFile { source: Vec<String>, target: Vec<String>, size: u64 },
}

/// The mathematical view of an `Operation`.
pub enum Step {
    CreateDirectory { path: Seq<Seq<char>> },
    CopyFile { source: Seq<Seq<char>>, target: Seq<Seq<char>>, size: u64 },
}

impl View for Operation {
    type V = Step;

    open spec fn view(&self) -> Step {
        match self {
            Operation::CreateDirectory { path } => Step::CreateDirectory { path: texts(path@) },
            Operation::CopyFile { source, target, size } => Step::CopyFile {
                source: texts(source@),
                target: texts(target@),
                size: *size,
            },
        }
    }
}

/// Why a copy cannot be made.
#[derive(Clone, Copy, Debug, PartialEq, Eq, Structural)]
pub enum CopyError {
    /// The source directory does not exist.
    SourceNotFound,
    /// No volume holds the destination.
    DestinationUnavailable,
    /// The destination volume has `available` bytes free and the copy needs
    /// `required`; a need beyond `u64::MAX` is given as `u64::MAX`.
    InsufficientSpace { required: u64, available: u64 },
}

/// The mathematical views of the entries of a listing.
pub open spec fn listing(entries: Seq<SourceEntry>) -> Seq<EntryView> {
    entries.map_values(|e: SourceEntry| e@)
}

/// The mathematical views of the operations of a plan.
pub open spec fn steps(operations: Seq<Operation>) -> Seq<Step> {
    operations.map_values(|o: Operation| o@)
}

/// The index of the last occurrence of `c` in `s`, or -1 if there is none.
pub open spec fn last_index_of(s: Seq<char>, c: char) -> int
    decreases s.len(),
{
    if s.len() == 0 {
        -1
    } else if s.last() == c {
        s.len() - 1
    } else {
        last_index_of(s.drop_last(), c)
    }
}

/// The extension of a file name: what follows its last dot. A name without a
/// dot has none, nor has one whose only dot is its first character, nor the
/// name `..`.
pub open spec fn extension(name: Seq<char>) -> Option<Seq<char>> {
    let dot = last_index_of(name, '.');
    if dot <= 0 || name == seq!['.', '.'] {
        None
    } else {
        Some(name.skip(dot + 1))
    }
}

/// The file name has an extension, and the filter holds it.
pub open spec fn spec_check_extension(name: Seq<char>, filter: Seq<Seq<char>>) -> bool {
    extension(name) matches Some(e) && filter.contains(e)
}

/// The last component of a path; empty for a path without components.
pub open spec fn file_name(path: Seq<Seq<char>>) -> Seq<char> {
    if path.len() == 0 {
        Seq::empty()
    } else {
        path.last()
    }
}

/// The entry is a file that the filter selects: the empty filter selects
/// every file, any other those whose extension it holds.
pub open spec fn selected(entry: EntryView, filter: Seq<Seq<char>>) -> bool {
    !entry.is_directory && (filter.len() == 0 || spec_check_extension(
        file_name(entry.path),
        filter,
    ))
}

/// The number of files that the filter selects.
pub open spec fn file_count(entries: Seq<EntryView>, filter: Seq<Seq<char>>) -> nat
    decreases entries.len(),
{
    if entries.len() == 0 {
        0
    } else {
        file_count(entries.drop_last(), filter) + if selected(entries.last(), filter) {
            1nat
        } else {
            0nat
        }
    }
}

/// The bytes in the files that the filter selects.
pub open spec fn byte_count(entries: Seq<EntryView>, filter: Seq<Seq<char>>) -> nat
    decreases entries.len(),
{
    if entries.len() == 0 {
        0
    } else {
        byte_count(entries.drop_last(), filter) + if selected(entries.last(), filter) {
            entries.last().size as nat
        } else {
            0nat
        }
    }
}

/// `n`, or `u64::MAX` if `n` is beyond it.
pub open spec fn capped(n: nat) -> u64 {
    if n > u64::MAX {
        u64::MAX
    } else {
        n as u64
    }
}

/// The last occurrence stands within the sequence or right before it, and
/// the character does not occur after it.
pub proof fn lemma_last_index_of(s: Seq<char>, c: char)
    ensures
        -1 <= last_index_of(s, c) < s.len(),
        last_index_of(s, c) >= 0 ==> s[last_index_of(s, c)] == c,
        forall|i: int| last_index_of(s, c) < i < s.len() ==> s[i] != c,
    decreases s.len(),
{
    if s.len() > 0 && s.last() != c {
        lemma_last_index_of(s.drop_last(), c);
        assert forall|i: int| last_index_of(s, c) < i < s.len() implies s[i] != c by {
            if i < s.len() - 1 {
                assert(s[i] == s.drop_last()[i]);
            }
        }
    }
}

/// Whether the file name has one of the extensions: what follows its last dot
/// is, to the letter, one of them. A name without a dot has no extension, nor
/// has one whose only dot is its first character.
pub fn check_extension(file_name: &str, extensions: &Vec<String>) -> (found: bool)
    ensures
        found == spec_check_extension(file_name@, texts(extensions@)),
{
    let chars = to_chars(file_name);
    let mut dot: usize = chars.len();
    while dot > 0 && chars[dot - 1] != '.'
        invariant
            dot <= chars.len(),
            forall|i: int| dot <= i < chars.len() ==> chars[i] != '.',
        decreases dot,
    {
        dot -= 1;
    }
    proof {
        lemma_last_index_of(chars@, '.');
    }
    if dot <= 1 || (chars.len() == 2 && chars[0] == '.') {
        assert(chars.len() == 2 && chars[0] == '.' && dot > 1 ==> chars@ == seq!['.', '.']);
        return false;
    }
    assert(chars@ != seq!['.', '.']);
    let found_extension = from_chars(&chars, dot, chars.len());
    let mut i: usize = 0;
    while i < extensions.len()
        invariant
            i <= extensions.len(),
            extension(file_name@) == Some(found_extension@),
            forall|k: int| 0 <= k < i ==> texts(extensions@)[k] != found_extension@,
        decreases extensions.len() - i,
    {
        if extensions[i] == found_extension {
            assert(texts(extensions@)[i as int] == found_extension@);
            return true;
        }
        i += 1;
    }
    false
}

/// Whether the filter selects the entry.
pub fn is_selected(entry: &SourceEntry, extensions: &Vec<String>) -> (chosen: bool)
    ensures
        chosen == selected(entry@, texts(extensions@)),
{
    if entry.is_directory {
        false
    } else if extensions.len() == 0 {
        true
    } else if entry.path.len() == 0 {
        false
    } else {
        check_extension(entry.path[entry.path.len() - 1].as_str(), extensions)
    }
}

/// Counts the files that the filter selects and the bytes in them; the
/// bytes are `None` if they are more than `u64::MAX`.
fn measure(entries: &Vec<SourceEntry>, extensions: &Vec<String>) -> (total: (usize, Option<u64>))
    ensures
        total.0 == file_count(listing(entries@), texts(extensions@)),
        total.1 == if byte_count(listing(entries@), texts(extensions@)) > u64::MAX {
            None
        } else {
            Some(byte_count(listing(entries@), texts(extensions@)) as u64)
        },
{
    let mut count: usize = 0;
    let mut size: Option<u64> = Some(0);
    let mut i: usize = 0;
    while i < entries.len()
        invariant
            i <= entries.len(),
            count <= i,
            count == file_count(listing(entries@).take(i as int), texts(extensions@)),
            size == if byte_count(listing(entries@).take(i as int), texts(extensions@))
                > u64::MAX {
                None
            } else {
                Some(byte_count(listing(entries@).take(i as int), texts(extensions@)) as u64)
            },
        decreases entries.len() - i,
    {
        assert(listing(entries@).take(i + 1).drop_last() == listing(entries@).take(i as int));
        if is_selected(&entries[i], extensions) {
            count += 1;
            size = match size {
                Some(bytes) => bytes.checked_add(entries[i].size),
                None => None,
            };
        }
        i += 1;
    }
    assert(listing(entries@).take(i as int) == listing(entries@));
    (count, size)
}

/// Counts the files that the filter selects and the bytes in them. A number
/// of bytes beyond `u64::MAX` is given as `u64::MAX`.
pub fn count_files_and_size(entries: &Vec<SourceEntry>, extensions: &Vec<String>) -> (total: (
    usize,
    u64,
))
    ensures
        total.0 == file_count(listing(entries@), texts(extensions@)),
        total.1 == capped(byte_count(listing(entries@), texts(extensions@))),
{
    let (count, size) = measure(entries, extensions);
    match size {
        Some(bytes) => (count, bytes),
        None => (count, u64::MAX),
    }
}

/// A copy that can be made: its operations in the order to perform them, and
/// the number and the bytes of the files that they copy.
#[derive(Debug)]
pub struct CopyPlan {
    operations: Vec<Operation>,
    total_files: usize,
    total_bytes: u64,
}

/// The mathematical view of a `CopyPlan`.
pub struct PlanView {
    pub steps: Seq<Step>,
    pub total_files: usize,
    pub total_bytes: u64,
}

impl View for CopyPlan {
    type V = PlanView;

    closed spec fn view(&self) -> PlanView {
        PlanView {
            steps: steps(self.operations@),
            total_files: self.total_files,
            total_bytes: self.total_bytes,
        }
    }
}

/// The totals of a plan are what its operations copy.
pub open spec fn consistent(plan: PlanView) -> bool {
    &&& plan.total_files == copied_files(plan.steps, plan.steps.len() as int)
    &&& plan.total_bytes == copied_bytes(plan.steps, plan.steps.len() as int)
}

impl CopyPlan {
    #[verifier::type_invariant]
    spec fn totals_hold(&self) -> bool {
        consistent(self@)
    }

    /// The operations, in the order to perform them.
    pub fn operations(&self) -> (operations: &Vec<Operation>)
        ensures
            steps(operations@) == self@.steps,
    {
        &self.operations
    }

    /// The number of files that the plan copies.
    pub fn total_files(&self) -> (files: usize)
        ensures
            files == self@.total_files,
            files == copied_files(self@.steps, self@.steps.len() as int),
    {
        proof {
            use_type_invariant(self);
        }
        self.total_files
    }

    /// The bytes that the plan copies.
    pub fn total_bytes(&self) -> (bytes: u64)
        ensures
            bytes == self@.total_bytes,
            bytes == copied_bytes(self@.steps, self@.steps.len() as int),
    {
        proof {
            use_type_invariant(self);
        }
        self.total_bytes
    }
}

/// The directory under the destination that takes the copy, and at whose root
/// the summary of the copy is written: the destination itself, or the
/// directory `backup` in a destination that holds something.
pub open spec fn copy_root(state: DestinationState) -> Seq<Seq<char>> {
    if state == DestinationState::Occupied {
        seq!["backup"@]
    } else {
        Seq::empty()
    }
}

/// What prepares the destination: a missing one is made, an occupied one
/// gets the directory `backup`.
pub open spec fn prepare(state: DestinationState) -> Seq<Step> {
    match state {
        DestinationState::Missing => seq![Step::CreateDirectory { path: Seq::empty() }],
        DestinationState::Empty => Seq::empty(),
        DestinationState::Occupied => seq![Step::CreateDirectory { path: copy_root(state) }],
    }
}

/// What an entry asks for: a directory is made under the root, a file that
/// the filter selects is copied to the same path under the root, any other
/// file is left out.
pub open spec fn step_for(entry: EntryView, root: Seq<Seq<char>>, filter: Seq<Seq<char>>) -> Option<
    Step,
> {
    if entry.is_directory {
        Some(Step::CreateDirectory { path: root + entry.path })
    } else if selected(entry, filter) {
        Some(Step::CopyFile { source: entry.path, target: root + entry.path, size: entry.size })
    } else {
        None
    }
}

/// The operations that mirror a listing under the root, in the order of the
/// listing.
pub open spec fn mirror(entries: Seq<EntryView>, root: Seq<Seq<char>>, filter: Seq<Seq<char>>) -> Seq<
    Step,
>
    decreases entries.len(),
{
    if entries.len() == 0 {
        Seq::empty()
    } else {
        mirror(entries.drop_last(), root, filter) + match step_for(entries.last(), root, filter) {
            Some(step) => seq![step],
            None => Seq::empty(),
        }
    }
}

/// The operations of the whole copy: the destination is prepared, then the
/// listing is mirrored under the root.
pub open spec fn spec_plan(entries: Seq<EntryView>, state: DestinationState, filter: Seq<Seq<char>>) -> Seq<
    Step,
> {
    prepare(state) + mirror(entries, copy_root(state), filter)
}

/// Where an operation writes.
pub open spec fn written_path(step: Step) -> Seq<Seq<char>> {
    match step {
        Step::CreateDirectory { path } => path,
        Step::CopyFile { target, .. } => target,
    }
}

/// The number of files that the first `done` operations copy.
pub open spec fn copied_files(operations: Seq<Step>, done: int) -> nat
    decreases done,
{
    if done <= 0 || done > operations.len() {
        0
    } else {
        copied_files(operations, done - 1) + if operations[done - 1] is CopyFile {
            1nat
        } else {
            0nat
        }
    }
}

/// The bytes that the first `done` operations copy.
pub open spec fn copied_bytes(operations: Seq<Step>, done: int) -> nat
    decreases done,
{
    if done <= 0 || done > operations.len() {
        0
    } else {
        copied_bytes(operations, done - 1) + match operations[done - 1] {
            Step::CopyFile { size, .. } => size as nat,
            _ => 0nat,
        }
    }
}

/// An operation is among those that mirror a listing exactly if an entry of
/// the listing asks for it.
pub proof fn lemma_mirror_holds(
    entries: Seq<EntryView>,
    root: Seq<Seq<char>>,
    filter: Seq<Seq<char>>,
    step: Step,
)
    ensures
        mirror(entries, root, filter).contains(step) <==> exists|i: int|
            0 <= i < entries.len() && step_for(#[trigger] entries[i], root, filter) == Some(step),
    decreases entries.len(),
{
    if entries.len() > 0 {
        let all = mirror(entries, root, filter);
        let front = entries.drop_last();
        let head = mirror(front, root, filter);
        lemma_mirror_holds(front, root, filter, step);
        if all.contains(step) {
            let k = choose|k: int| 0 <= k < all.len() && all[k] == step;
            if k < head.len() {
                assert(head.contains(step));
                let i = choose|i: int|
                    0 <= i < front.len() && step_for(#[trigger] front[i], root, filter) == Some(
                        step,
                    );
                assert(entries[i] == front[i]);
            } else {
                assert(step_for(entries[entries.len() - 1], root, filter) == Some(step));
            }
        }
        if exists|i: int|
            0 <= i < entries.len() && step_for(#[trigger] entries[i], root, filter) == Some(step) {
            let i = choose|i: int|
                0 <= i < entries.len() && step_for(#[trigger] entries[i], root, filter) == Some(
                    step,
                );
            if i < front.len() {
                assert(front[i] == entries[i]);
                let k = choose|k: int| 0 <= k < head.len() && head[k] == step;
                assert(all[k] == step);
            } else {
                assert(all[head.len() as int] == step);
            }
        }
    }
}

/// The operations that mirror a listing copy as many files, and as many
/// bytes, as the filter selects.
pub proof fn lemma_mirror_copies_what_is_selected(
    entries: Seq<EntryView>,
    root: Seq<Seq<char>>,
    filter: Seq<Seq<char>>,
)
    ensures
        copied_files(
            mirror(entries, root, filter),
            mirror(entries, root, filter).len() as int,
        ) == file_count(entries, filter),
        copied_bytes(
            mirror(entries, root, filter),
            mirror(entries, root, filter).len() as int,
        ) == byte_count(entries, filter),
    decreases entries.len(),
{
    let all = mirror(entries, root, filter);
    if entries.len() > 0 {
        let head = mirror(entries.drop_last(), root, filter);
        lemma_mirror_copies_what_is_selected(entries.drop_last(), root, filter);
        lemma_copied_on_prefix(all, head, head.len() as int);
    }
}

/// A plan copies as many files, and as many bytes, as the filter selects.
pub proof fn lemma_plan_copies_what_is_selected(
    entries: Seq<EntryView>,
    state: DestinationState,
    filter: Seq<Seq<char>>,
)
    ensures
        copied_files(
            spec_plan(entries, state, filter),
            spec_plan(entries, state, filter).len() as int,
        ) == file_count(entries, filter),
        copied_bytes(
            spec_plan(entries, state, filter),
            spec_plan(entries, state, filter).len() as int,
        ) == byte_count(entries, filter),
{
    let m = mirror(entries, copy_root(state), filter);
    lemma_mirror_copies_what_is_selected(entries, copy_root(state), filter);
    lemma_copied_after(prepare(state), m, m.len() as int);
    reveal_with_fuel(copied_files, 2);
    reveal_with_fuel(copied_bytes, 2);
}

/// What the operations copy that come after others is what they copy alone,
/// added to what the others copy.
pub proof fn lemma_copied_after(first: Seq<Step>, then: Seq<Step>, done: int)
    requires
        0 <= done <= then.len(),
    ensures
        copied_files(first + then, first.len() + done) == copied_files(
            first,
            first.len() as int,
        ) + copied_files(then, done),
        copied_bytes(first + then, first.len() + done) == copied_bytes(
            first,
            first.len() as int,
        ) + copied_bytes(then, done),
    decreases done,
{
    if done > 0 {
        lemma_copied_after(first, then, done - 1);
    } else {
        lemma_copied_on_prefix(first + then, first, first.len() as int);
    }
}

/// What the first `done` operations copy depends on those operations alone.
pub proof fn lemma_copied_on_prefix(operations: Seq<Step>, prefix: Seq<Step>, done: int)
    requires
        0 <= done <= prefix.len() <= operations.len(),
        forall|i: int| 0 <= i < prefix.len() ==> prefix[i] == operations[i],
    ensures
        copied_files(operations, done) == copied_files(prefix, done),
        copied_bytes(operations, done) == copied_bytes(prefix, done),
    decreases done,
{
    if done > 0 {
        lemma_copied_on_prefix(operations, prefix, done - 1);
    }
}

/// With the empty filter every file of the listing is copied, to the path
/// under the copy root that it has under the source root.
pub proof fn lemma_empty_filter_copies_every_file(
    entries: Seq<EntryView>,
    state: DestinationState,
    i: int,
)
    requires
        0 <= i < entries.len(),
        !entries[i].is_directory,
    ensures
        spec_plan(entries, state, Seq::empty()).contains(
            Step::CopyFile {
                source: entries[i].path,
                target: copy_root(state) + entries[i].path,
                size: entries[i].size,
            },
        ),
{
    let step = Step::CopyFile {
        source: entries[i].path,
        target: copy_root(state) + entries[i].path,
        size: entries[i].size,
    };
    let filter = Seq::<Seq<char>>::empty();
    lemma_mirror_holds(entries, copy_root(state), filter, step);
    let m = mirror(entries, copy_root(state), filter);
    let k = choose|k: int| 0 <= k < m.len() && m[k] == step;
    assert(spec_plan(entries, state, filter)[prepare(state).len() + k] == step);
}

/// Whatever is copied is a file of the listing that the filter selects, and
/// goes to the path under the copy root that it has under the source root.
/// With a filter that holds extensions, its extension is one of them.
pub proof fn lemma_only_selected_files_are_copied(
    entries: Seq<EntryView>,
    state: DestinationState,
    filter: Seq<Seq<char>>,
    step: Step,
)
    requires
        spec_plan(entries, state, filter).contains(step),
        step is CopyFile,
    ensures
        exists|i: int|
            0 <= i < entries.len() && selected(#[trigger] entries[i], filter) && step == (
            Step::CopyFile {
                source: entries[i].path,
                target: copy_root(state) + entries[i].path,
                size: entries[i].size,
            }) && (filter.len() > 0 ==> spec_check_extension(file_name(entries[i].path), filter)),
{
    let plan = spec_plan(entries, state, filter);
    let k = choose|k: int| 0 <= k < plan.len() && plan[k] == step;
    let m = mirror(entries, copy_root(state), filter);
    lemma_mirror_holds(entries, copy_root(state), filter, step);
}

/// Where the filter selects no file of the listing, nothing is copied.
pub proof fn lemma_nothing_selected_nothing_copied(
    entries: Seq<EntryView>,
    state: DestinationState,
    filter: Seq<Seq<char>>,
)
    requires
        forall|i: int| 0 <= i < entries.len() ==> !selected(#[trigger] entries[i], filter),
    ensures
        forall|k: int|
            0 <= k < spec_plan(entries, state, filter).len() ==> !(#[trigger] spec_plan(
                entries,
                state,
                filter,
            )[k] is CopyFile),
{
    let plan = spec_plan(entries, state, filter);
    assert forall|k: int| 0 <= k < plan.len() implies !(#[trigger] plan[k] is CopyFile) by {
        if plan[k] is CopyFile {
            lemma_only_selected_files_are_copied(entries, state, filter, plan[k]);
        }
    }
}

/// In a destination that holds something, every operation writes under the
/// directory `backup`.
pub proof fn lemma_occupied_destination_is_left_alone(
    entries: Seq<EntryView>,
    filter: Seq<Seq<char>>,
    step: Step,
)
    requires
        spec_plan(entries, DestinationState::Occupied, filter).contains(step),
    ensures
        written_path(step).len() > 0,
        written_path(step)[0] == "backup"@,
{
    let state = DestinationState::Occupied;
    let plan = spec_plan(entries, state, filter);
    let k = choose|k: int| 0 <= k < plan.len() && plan[k] == step;
    if k >= prepare(state).len() {
        let m = mirror(entries, copy_root(state), filter);
        lemma_mirror_holds(entries, copy_root(state), filter, step);
    }
}

/// The listing names every entry after the directory that holds it: an entry
/// lies right under the source root, or right under a directory that stands
/// earlier in the listing.
pub open spec fn in_walk_order(entries: Seq<EntryView>) -> bool {
    forall|i: int|
        0 <= i < entries.len() ==> {
            let path = (#[trigger] entries[i]).path;
            path.len() == 1 || (path.len() > 1 && exists|j: int|
                0 <= j < i && (#[trigger] entries[j]).is_directory && entries[j].path
                    == path.drop_last())
        }
}

/// Of a listing in walk order, every operation of the mirror writes right
/// under the root, or right under a directory that an earlier operation
/// makes.
pub proof fn lemma_mirror_makes_directories_first(
    entries: Seq<EntryView>,
    root: Seq<Seq<char>>,
    filter: Seq<Seq<char>>,
    k: int,
)
    requires
        in_walk_order(entries),
        0 <= k < mirror(entries, root, filter).len(),
    ensures
        written_path(mirror(entries, root, filter)[k]).len() > 0,
        written_path(mirror(entries, root, filter)[k]).drop_last() == root || exists|earlier: int|
            0 <= earlier < k && #[trigger] mirror(entries, root, filter)[earlier] == (
            Step::CreateDirectory {
                path: written_path(mirror(entries, root, filter)[k]).drop_last(),
            }),
    decreases entries.len(),
{
    let all = mirror(entries, root, filter);
    let front = entries.drop_last();
    let head = mirror(front, root, filter);
    let last = entries.last();
    assert forall|i: int| 0 <= i < front.len() implies {
        let path = (#[trigger] front[i]).path;
        path.len() == 1 || (path.len() > 1 && exists|j: int|
            0 <= j < i && (#[trigger] front[j]).is_directory && front[j].path == path.drop_last())
    } by {
        let path = entries[i].path;
        if path.len() != 1 {
            let j = choose|j: int|
                0 <= j < i && (#[trigger] entries[j]).is_directory && entries[j].path
                    == path.drop_last();
            assert(front[j] == entries[j]);
        }
    }
    if k < head.len() {
        lemma_mirror_makes_directories_first(front, root, filter, k);
        let parent = written_path(head[k]).drop_last();
        if parent != root {
            let earlier = choose|earlier: int|
                0 <= earlier < k && #[trigger] head[earlier] == (Step::CreateDirectory {
                    path: parent,
                });
            assert(all[earlier] == head[earlier]);
        }
    } else {
        assert(written_path(all[k]) == root + last.path);
        if last.path.len() == 1 {
            assert((root + last.path).drop_last() == root);
        } else {
            let j = choose|j: int|
                0 <= j < entries.len() - 1 && (#[trigger] entries[j]).is_directory
                    && entries[j].path == last.path.drop_last();
            let made = Step::CreateDirectory { path: root + entries[j].path };
            assert(step_for(front[j], root, filter) == Some(made));
            lemma_mirror_holds(front, root, filter, made);
            let earlier = choose|earlier: int| 0 <= earlier < head.len() && head[earlier] == made;
            assert(all[earlier] == made);
            assert((root + last.path).drop_last() == root + last.path.drop_last());
        }
    }
}

/// A plan makes every directory before it writes into it: unless the
/// destination is there and empty, its first operation makes the copy root;
/// and of a listing in walk order every later operation writes right under
/// the copy root, or right under a directory that an earlier operation makes.
pub proof fn lemma_plan_makes_directories_first(
    entries: Seq<EntryView>,
    state: DestinationState,
    filter: Seq<Seq<char>>,
    k: int,
)
    requires
        in_walk_order(entries),
        0 <= k < spec_plan(entries, state, filter).len(),
    ensures
        state != DestinationState::Empty ==> spec_plan(entries, state, filter)[0] == (
        Step::CreateDirectory { path: copy_root(state) }),
        k >= prepare(state).len() ==> {
            let path = written_path(spec_plan(entries, state, filter)[k]);
            &&& path.len() > 0
            &&& path.drop_last() == copy_root(state) || exists|earlier: int|
                0 <= earlier < k && #[trigger] spec_plan(entries, state, filter)[earlier] == (
                Step::CreateDirectory { path: path.drop_last() })
        },
{
    let plan = spec_plan(entries, state, filter);
    let root = copy_root(state);
    let m = mirror(entries, root, filter);
    let shift = prepare(state).len() as int;
    if k >= shift {
        lemma_mirror_makes_directories_first(entries, root, filter, k - shift);
        let parent = written_path(plan[k]).drop_last();
        if parent != root {
            let earlier = choose|earlier: int|
                0 <= earlier < k - shift && #[trigger] m[earlier] == (Step::CreateDirectory {
                    path: parent,
                });
            assert(plan[earlier + shift] == m[earlier]);
        }
    }
}

/// What performing an operation does to the files under the destination,
/// each held by its path and its bytes: a copy puts the bytes of the source
/// file at the target path, the making of a directory changes no file.
pub open spec fn perform(
    step: Step,
    source: Map<Seq<Seq<char>>, Seq<u8>>,
    destination: Map<Seq<Seq<char>>, Seq<u8>>,
) -> Map<Seq<Seq<char>>, Seq<u8>> {
    match step {
        Step::CopyFile { source: from, target, .. } => destination.insert(target, source[from]),
        Step::CreateDirectory { .. } => destination,
    }
}

/// The files under the destination after the operations have been performed
/// in order.
pub open spec fn perform_all(
    operations: Seq<Step>,
    source: Map<Seq<Seq<char>>, Seq<u8>>,
    destination: Map<Seq<Seq<char>>, Seq<u8>>,
) -> Map<Seq<Seq<char>>, Seq<u8>>
    decreases operations.len(),
{
    if operations.len() == 0 {
        destination
    } else {
        perform(
            operations.last(),
            source,
            perform_all(operations.drop_last(), source, destination),
        )
    }
}

/// A path that no operation writes holds after them what it held before.
pub proof fn lemma_unwritten_path_is_kept(
    operations: Seq<Step>,
    source: Map<Seq<Seq<char>>, Seq<u8>>,
    destination: Map<Seq<Seq<char>>, Seq<u8>>,
    path: Seq<Seq<char>>,
)
    requires
        forall|k: int| 0 <= k < operations.len() ==> written_path(#[trigger] operations[k]) != path,
    ensures
        perform_all(operations, source, destination).dom().contains(path)
            == destination.dom().contains(path),
        perform_all(operations, source, destination)[path] == destination[path],
    decreases operations.len(),
{
    if operations.len() > 0 {
        let front = operations.drop_last();
        assert forall|k: int| 0 <= k < front.len() implies written_path(#[trigger] front[k])
            != path by {
            assert(front[k] == operations[k]);
        }
        lemma_unwritten_path_is_kept(front, source, destination, path);
    }
}

/// Where every copy goes to the path under `root` that its file has under the
/// source, the target of each copy holds in the end the bytes of its file.
pub proof fn lemma_copies_hold_source_bytes(
    operations: Seq<Step>,
    root: Seq<Seq<char>>,
    source: Map<Seq<Seq<char>>, Seq<u8>>,
    destination: Map<Seq<Seq<char>>, Seq<u8>>,
    k: int,
)
    requires
        0 <= k < operations.len(),
        operations[k] is CopyFile,
        forall|j: int|
            0 <= j < operations.len() ==> ((#[trigger] operations[j]) matches Step::CopyFile {
                source: from,
                target,
                ..
            } ==> target == root + from),
    ensures
        operations[k] matches Step::CopyFile { source: from, target, .. } && perform_all(
            operations,
            source,
            destination,
        ).dom().contains(target) && perform_all(operations, source, destination)[target]
            == source[from],
    decreases operations.len(),
{
    let front = operations.drop_last();
    let last = operations.last();
    if last is CopyFile && written_path(last) == written_path(operations[k]) {
        let from = operations[k]->source;
        let last_from = last->source;
        assert(last_from == (root + last_from).skip(root.len() as int));
        assert(from == (root + from).skip(root.len() as int));
    } else {
        assert forall|j: int| 0 <= j < front.len() implies ((#[trigger] front[j]) matches Step::CopyFile {
            source: from,
            target,
            ..
        } ==> target == root + from) by {
            assert(front[j] == operations[j]);
        }
        lemma_copies_hold_source_bytes(front, root, source, destination, k);
    }
}

/// After the plan has been performed, every file of the listing that the
/// filter selects stands under the copy root at the path that it has under
/// the source, with its bytes. With the empty filter these are all files.
pub proof fn lemma_copy_reproduces_files(
    entries: Seq<EntryView>,
    state: DestinationState,
    filter: Seq<Seq<char>>,
    source: Map<Seq<Seq<char>>, Seq<u8>>,
    destination: Map<Seq<Seq<char>>, Seq<u8>>,
    i: int,
)
    requires
        0 <= i < entries.len(),
        selected(entries[i], filter),
    ensures
        perform_all(spec_plan(entries, state, filter), source, destination).dom().contains(
            copy_root(state) + entries[i].path,
        ),
        perform_all(spec_plan(entries, state, filter), source, destination)[copy_root(state)
            + entries[i].path] == source[entries[i].path],
{
    let root = copy_root(state);
    let plan = spec_plan(entries, state, filter);
    let step = Step::CopyFile {
        source: entries[i].path,
        target: root + entries[i].path,
        size: entries[i].size,
    };
    let m = mirror(entries, root, filter);
    lemma_mirror_holds(entries, root, filter, step);
    let at = choose|at: int| 0 <= at < m.len() && m[at] == step;
    let k = prepare(state).len() + at;
    assert forall|j: int| 0 <= j < plan.len() implies ((#[trigger] plan[j]) matches Step::CopyFile {
        source: from,
        target,
        ..
    } ==> target == root + from) by {
        if plan[j] is CopyFile {
            lemma_only_selected_files_are_copied(entries, state, filter, plan[j]);
        }
    }
    lemma_copies_hold_source_bytes(plan, root, source, destination, k);
}

/// In a destination that holds something, whatever stands outside the
/// directory `backup` is after the copy as it was before.
pub proof fn lemma_existing_files_are_kept(
    entries: Seq<EntryView>,
    filter: Seq<Seq<char>>,
    source: Map<Seq<Seq<char>>, Seq<u8>>,
    destination: Map<Seq<Seq<char>>, Seq<u8>>,
    path: Seq<Seq<char>>,
)
    requires
        path.len() == 0 || path[0] != "backup"@,
    ensures
        perform_all(
            spec_plan(entries, DestinationState::Occupied, filter),
            source,
            destination,
        ).dom().contains(path) == destination.dom().contains(path),
        perform_all(spec_plan(entries, DestinationState::Occupied, filter), source, destination)[path]
            == destination[path],
{
    let plan = spec_plan(entries, DestinationState::Occupied, filter);
    assert forall|k: int| 0 <= k < plan.len() implies written_path(#[trigger] plan[k])
        != path by {
        lemma_occupied_destination_is_left_alone(entries, filter, plan[k]);
    }
    lemma_unwritten_path_is_kept(plan, source, destination, path);
}

/// A copy of a path.
fn clone_path(path: &Vec<String>) -> (copy: Vec<String>)
    ensures
        texts(copy@) == texts(path@),
{
    let mut copy: Vec<String> = Vec::new();
    let mut i: usize = 0;
    while i < path.len()
        invariant
            i <= path.len(),
            texts(copy@) == texts(path@).take(i as int),
        decreases path.len() - i,
    {
        copy.push(path[i].clone());
        assert(texts(path@).take(i + 1) == texts(path@).take(i as int).push(path[i as int]@));
        i += 1;
    }
    copy
}

/// The path that leads through `root` and on along `path`.
fn join_path(root: &Vec<String>, path: &Vec<String>) -> (joined: Vec<String>)
    ensures
        texts(joined@) == texts(root@) + texts(path@),
{
    let mut joined = clone_path(root);
    let mut i: usize = 0;
    while i < path.len()
        invariant
            i <= path.len(),
            texts(joined@) == texts(root@) + texts(path@).take(i as int),
        decreases path.len() - i,
    {
        let ghost before = joined@;
        let component = path[i].clone();
        joined.push(component);
        assert(texts(joined@) == texts(before).push(component@));
        assert(texts(path@).take(i + 1) == texts(path@).take(i as int).push(path[i as int]@));
        i += 1;
    }
    joined
}

/// The directory under the destination that takes the copy, and at whose root
/// the summary of the copy is written: the destination itself, or its
/// directory `backup` if the destination holds something.
pub fn copy_root_of(state: DestinationState) -> (root: Vec<String>)
    ensures
        texts(root@) == copy_root(state),
{
    let mut root: Vec<String> = Vec::new();
    match state {
        DestinationState::Occupied => {
            root.push("backup".to_owned());
        },
        _ => {},
    }
    root
}

/// Mirrors a listing under `root`: the operations that make its directories
/// and copy the files that the filter selects, in the order of the listing.
pub fn copy_dir_recursive(
    entries: &Vec<SourceEntry>,
    root: &Vec<String>,
    extensions: &Vec<String>,
) -> (operations: Vec<Operation>)
    ensures
        steps(operations@) == mirror(listing(entries@), texts(root@), texts(extensions@)),
{
    let mut operations: Vec<Operation> = Vec::new();
    let mut i: usize = 0;
    while i < entries.len()
        invariant
            i <= entries.len(),
            steps(operations@) == mirror(
                listing(entries@).take(i as int),
                texts(root@),
                texts(extensions@),
            ),
        decreases entries.len() - i,
    {
        assert(listing(entries@).take(i + 1).drop_last() == listing(entries@).take(i as int));
        let entry = &entries[i];
        if entry.is_directory {
            operations.push(Operation::CreateDirectory { path: join_path(root, &entry.path) });
        } else if is_selected(entry, extensions) {
            operations.push(
                Operation::CopyFile {
                    source: clone_path(&entry.path),
                    target: join_path(root, &entry.path),
                    size: entry.size,
                },
            );
        }
        i += 1;
    }
    assert(listing(entries@).take(i as int) == listing(entries@));
    operations
}

/// Plans the copy of a source tree into a destination.
///
/// `source` is the listing of the source, `None` for a source that does not
/// exist. `available` is the free space of the volume that holds the
/// destination, `None` if no volume holds it. `state` says what the
/// destination is like, and `extensions` is the filter: none for every file.
///
/// The copy is refused with `SourceNotFound` without a source, else with
/// `DestinationUnavailable` without a volume, else with `InsufficientSpace`
/// if the files that the filter selects need more than is free. Otherwise the
/// plan prepares the destination and mirrors the listing under it, or under
/// its directory `backup` if the destination holds something.
pub fn copy_dir(
    source: Option<&Vec<SourceEntry>>,
    available: Option<u64>,
    state: DestinationState,
    extensions: &Vec<String>,
) -> (result: Result<CopyPlan, CopyError>)
    ensures
        source is None ==> result == Err::<CopyPlan, CopyError>(CopyError::SourceNotFound),
        source is Some && available is None ==> result == Err::<CopyPlan, CopyError>(
            CopyError::DestinationUnavailable,
        ),
        match (source, available) {
            (Some(entries), Some(free)) => {
                let required = byte_count(listing(entries@), texts(extensions@));
                if free < required {
                    result == Err::<CopyPlan, CopyError>(
                        CopyError::InsufficientSpace {
                            required: capped(required),
                            available: free,
                        },
                    )
                } else {
                    &&& result matches Ok(plan)
                    &&& plan@.steps == spec_plan(listing(entries@), state, texts(extensions@))
                    &&& plan@.total_files == file_count(listing(entries@), texts(extensions@))
                    &&& plan@.total_bytes == required
                }
            },
            _ => true,
        },
{
    let entries = match source {
        Some(entries) => entries,
        None => {
            return Err(CopyError::SourceNotFound);
        },
    };
    let (total_files, measured) = measure(entries, extensions);
    let free: u64 = match available {
        Some(free) => free,
        None => {
            return Err(CopyError::DestinationUnavailable);
        },
    };
    let total_bytes: u64 = match measured {
        Some(bytes) if bytes <= free => bytes,
        Some(bytes) => {
            return Err(CopyError::InsufficientSpace { required: bytes, available: free });
        },
        None => {
            return Err(CopyError::InsufficientSpace { required: u64::MAX, available: free });
        },
    };
    let root = copy_root_of(state);
    let mut operations: Vec<Operation> = Vec::new();
    match state {
        DestinationState::Empty => {},
        _ => {
            operations.push(Operation::CreateDirectory { path: clone_path(&root) });
        },
    }
    assert(steps(operations@) == prepare(state));
    let ghost prepared = steps(operations@);
    let mut mirrored = copy_dir_recursive(entries, &root, extensions);
    let ghost mirrored_steps = steps(mirrored@);
    operations.append(&mut mirrored);
    assert(steps(operations@) == prepared + mirrored_steps);
    proof {
        lemma_plan_copies_what_is_selected(listing(entries@), state, texts(extensions@));
    }
    Ok(CopyPlan { operations, total_files, total_bytes })
}

/// How far a copy has come: the number of operations performed, and the
/// files and bytes that they copied.
#[derive(Clone, Copy, Debug, PartialEq, Eq, Structural)]
pub struct Progress {
    pub done: usize,
    pub copied_files: usize,
    pub copied_bytes: u64,
}

/// What is written down when a copy ends: the bytes and files copied and the
/// milliseconds that it took.
#[derive(Clone, Copy, Debug, PartialEq, Eq, Structural)]
pub struct Summary {
    pub bytes_copied: u64,
    pub files_copied: usize,
    pub elapsed: u64,
}

impl Summary {
    /// The record to write at the root of the copied tree.
    pub fn record(&self) -> (text: String)
        ensures
            text@ == spec_record(*self),
    {
        let mut text = decimal(self.bytes_copied);
        text.append(" bytes\n");
        text.append(decimal(self.elapsed).as_str());
        text.append(" millis\n");
        text
    }
}

/// One run of a copy: the plan, where its paths begin, when it started and
/// how far it has come. Times are milliseconds on any clock.
pub struct CopyJob {
    source_root: String,
    destination_root: String,
    plan: CopyPlan,
    progress: Progress,
    start_time: u64,
}

/// The mathematical view of a `CopyJob`.
pub struct JobView {
    pub source_root: Seq<char>,
    pub destination_root: Seq<char>,
    pub plan: PlanView,
    pub progress: Progress,
    pub start_time: u64,
}

impl View for CopyJob {
    type V = JobView;

    closed spec fn view(&self) -> JobView {
        JobView {
            source_root: self.source_root@,
            destination_root: self.destination_root@,
            plan: self.plan@,
            progress: self.progress,
            start_time: self.start_time,
        }
    }
}

/// The progress counts what the operations performed so far have copied.
pub open spec fn on_track(job: JobView) -> bool {
    &&& consistent(job.plan)
    &&& job.progress.done <= job.plan.steps.len()
    &&& job.progress.copied_files == copied_files(job.plan.steps, job.progress.done as int)
    &&& job.progress.copied_bytes == copied_bytes(job.plan.steps, job.progress.done as int)
}

/// The progress after the next operation of the plan; the same progress if
/// none is left.
pub open spec fn advanced(job: JobView) -> Progress {
    let done = job.progress.done as int;
    if done < job.plan.steps.len() {
        Progress {
            done: (done + 1) as usize,
            copied_files: copied_files(job.plan.steps, done + 1) as usize,
            copied_bytes: copied_bytes(job.plan.steps, done + 1) as u64,
        }
    } else {
        job.progress
    }
}

/// The record of a summary: the bytes copied and the milliseconds elapsed,
/// each in decimal digits on a line of its own.
pub open spec fn spec_record(summary: Summary) -> Seq<char> {
    spec_decimal(summary.bytes_copied as nat) + " bytes\n"@ + spec_decimal(
        summary.elapsed as nat,
    ) + " millis\n"@
}

/// The time from `start` to `now`; none if `now` is the earlier.
pub open spec fn elapsed(start: u64, now: u64) -> u64 {
    if now >= start {
        (now - start) as u64
    } else {
        0
    }
}

/// The operations performed first copy no more than those performed later.
pub proof fn lemma_copied_grows(operations: Seq<Step>, earlier: int, later: int)
    requires
        0 <= earlier <= later <= operations.len(),
    ensures
        copied_files(operations, earlier) <= copied_files(operations, later) <= later,
        copied_bytes(operations, earlier) <= copied_bytes(operations, later),
    decreases later,
{
    if earlier < later {
        lemma_copied_grows(operations, earlier, later - 1);
    } else if later > 0 {
        lemma_copied_grows(operations, earlier - 1, later - 1);
    }
}

impl CopyJob {
    #[verifier::type_invariant]
    spec fn counts_hold(&self) -> bool {
        on_track(self@)
    }

    /// A job that is about to perform `plan`, whose source paths begin at
    /// `source_root` and whose target paths begin at `destination_root`.
    pub fn new(
        source_root: String,
        destination_root: String,
        plan: CopyPlan,
        start_time: u64,
    ) -> (job: CopyJob)
        ensures
            job@.source_root == source_root@,
            job@.destination_root == destination_root@,
            job@.plan == plan@,
            job@.progress == (Progress { done: 0, copied_files: 0, copied_bytes: 0 }),
            job@.start_time == start_time,
            on_track(job@),
    {
        proof {
            use_type_invariant(&plan);
        }
        CopyJob {
            source_root,
            destination_root,
            plan,
            progress: Progress { done: 0, copied_files: 0, copied_bytes: 0 },
            start_time,
        }
    }

    /// The directory at which the source paths of the plan begin.
    pub fn source_root(&self) -> (root: &String)
        ensures
            root@ == self@.source_root,
    {
        &self.source_root
    }

    /// The directory at which the target paths of the plan begin.
    pub fn destination_root(&self) -> (root: &String)
        ensures
            root@ == self@.destination_root,
    {
        &self.destination_root
    }

    /// The plan that the job performs.
    pub fn plan(&self) -> (plan: &CopyPlan)
        ensures
            plan@ == self@.plan,
    {
        &self.plan
    }

    /// How far the job has come. Once every operation is performed, the files
    /// and bytes copied are the totals of the plan.
    pub fn progress(&self) -> (progress: Progress)
        ensures
            progress == self@.progress,
            on_track(self@),
            progress.done == self@.plan.steps.len() ==> progress.copied_files
                == self@.plan.total_files && progress.copied_bytes == self@.plan.total_bytes,
    {
        proof {
            use_type_invariant(self);
        }
        self.progress
    }

    /// The operation to perform next; `None` once all are performed.
    pub fn next_operation(&self) -> (next: Option<&Operation>)
        ensures
            self@.progress.done < self@.plan.steps.len() ==> next is Some && next->0@
                == self@.plan.steps[self@.progress.done as int],
            self@.progress.done >= self@.plan.steps.len() ==> next is None,
    {
        proof {
            use_type_invariant(self);
        }
        if self.progress.done < self.plan.operations.len() {
            Some(&self.plan.operations[self.progress.done])
        } else {
            None
        }
    }

    /// Takes the next operation as performed and counts what it copied.
    /// Changes nothing once all are performed.
    pub fn complete_operation(&mut self)
        ensures
            final(self)@.progress == advanced(old(self)@),
            final(self)@.plan == old(self)@.plan,
            final(self)@.source_root == old(self)@.source_root,
            final(self)@.destination_root == old(self)@.destination_root,
            final(self)@.start_time == old(self)@.start_time,
            on_track(final(self)@),
    {
        proof {
            use_type_invariant(&*self);
            use_type_invariant(&self.plan);
        }
        let done: usize = self.progress.done;
        if done < self.plan.operations.len() {
            proof {
                let all = steps(self.plan.operations@);
                lemma_copied_grows(all, done + 1, all.len() as int);
                lemma_copied_grows(all, done as int, done + 1);
            }
            let progress = match &self.plan.operations[done] {
                Operation::CopyFile { size, .. } => Progress {
                    done: done + 1,
                    copied_files: self.progress.copied_files + 1,
                    copied_bytes: self.progress.copied_bytes + *size,
                },
                Operation::CreateDirectory { .. } => Progress { done: done + 1, ..self.progress },
            };
            self.progress = progress;
        }
    }

    /// What to write down at the end: what has been copied, and the time from
    /// the start of the job to `now`.
    pub fn summary(&self, now: u64) -> (summary: Summary)
        ensures
            summary == (Summary {
                bytes_copied: self@.progress.copied_bytes,
                files_copied: self@.progress.copied_files,
                elapsed: elapsed(self@.start_time, now),
            }),
    {
        Summary {
            bytes_copied: self.progress.copied_bytes,
            files_copied: self.progress.copied_files,
            elapsed: if now >= self.start_time {
                now - self.start_time
            } else {
                0
            },
        }
    }
}

} // verus!
