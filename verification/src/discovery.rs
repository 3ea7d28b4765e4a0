//! Which targets a search assesses: the decisions taken for each walked entry, and the selection that keeps
//! each file and range once, in path order.

use vstd::prelude::*;

use crate::error::FileError;
use crate::target::{LineRange, Target};

verus! {

broadcast use vstd::string::group_string_axioms;

/// The targets to assess and the errors found while selecting them.
#[derive(Debug)]
pub struct Discovery {
    pub targets: Vec<Target>,
    pub errors: Vec<FileError>,
}

/// What the walk does with one entry it meets.
#[derive(Clone, Copy, Debug, PartialEq, Eq)]
pub enum EntryAction {
    /// Directories and entries the globs exclude are passed over.
    Skip,
    /// A symbolic link or special file named directly by an argument is an error.
    Error,
    /// A regular file is selected.
    Select,
}

/// The message for an argument that is neither a regular file nor a directory.
pub open spec fn not_regular_message() -> Seq<char> {
    "expected a regular file or directory; symbolic links are not followed"@
}

/// The message for a line range on something other than a regular file.
pub open spec fn range_needs_file_message() -> Seq<char> {
    "line ranges need a regular file; directories and symbolic links are not supported"@
}

/// The message for a path that is not valid UTF-8.
pub open spec fn not_utf8_path_message() -> Seq<char> {
    "file path is not valid UTF-8"@
}

pub fn not_regular_text() -> (m: String)
    ensures
        m@ == not_regular_message(),
{
    proof {
        reveal_strlit("expected a regular file or directory; symbolic links are not followed");
    }
    String::from_str("expected a regular file or directory; symbolic links are not followed")
}

pub fn range_needs_file_text() -> (m: String)
    ensures
        m@ == range_needs_file_message(),
{
    proof {
        reveal_strlit(
            "line ranges need a regular file; directories and symbolic links are not supported",
        );
    }
    String::from_str(
        "line ranges need a regular file; directories and symbolic links are not supported",
    )
}

/// A walked entry: directories and glob-excluded entries are skipped; anything but a regular file is skipped
/// too, except at depth 0, where the argument named it directly and it is an error (links are not followed).
pub fn walk_entry_action(is_dir: bool, excluded: bool, is_file: bool, depth: usize) -> (a: EntryAction)
    ensures
        a == (if is_dir || excluded {
            EntryAction::Skip
        } else if !is_file {
            if depth == 0 {
                EntryAction::Error
            } else {
                EntryAction::Skip
            }
        } else {
            EntryAction::Select
        }),
{
    if is_dir || excluded {
        EntryAction::Skip
    } else if !is_file {
        if depth == 0 {
            EntryAction::Error
        } else {
            EntryAction::Skip
        }
    } else {
        EntryAction::Select
    }
}

/// A ranged argument: globs still filter it, and only a regular file can carry a range. `is_file` is `None`
/// when the path could not be inspected, which the caller reports with the system's message.
pub fn ranged_action(excluded: bool, is_file: Option<bool>) -> (a: Option<EntryAction>)
    ensures
        a == (if excluded {
            Some(EntryAction::Skip)
        } else {
            match is_file {
                Some(true) => Some(EntryAction::Select),
                Some(false) => Some(EntryAction::Error),
                None => None,
            }
        }),
{
    if excluded {
        Some(EntryAction::Skip)
    } else {
        match is_file {
            Some(true) => Some(EntryAction::Select),
            Some(false) => Some(EntryAction::Error),
            None => None,
        }
    }
}

/// The key a selected target is found again by: the canonical path's bytes and the range.
pub type Key = (Seq<u8>, Option<LineRange>);

/// The order of path bytes when paths are compared component by component: the separator sorts first.
pub open spec fn byte_rank(b: u8) -> int {
    if b == 47u8 {
        0
    } else {
        b as int + 1
    }
}

/// Compares canonical paths as `Path`'s order does, one component at a time: -1, 0 or 1.
pub open spec fn path_order(a: Seq<u8>, b: Seq<u8>) -> int
    decreases a.len(),
{
    if a.len() == 0 {
        if b.len() == 0 {
            0
        } else {
            -1
        }
    } else if b.len() == 0 {
        1
    } else if byte_rank(a[0]) < byte_rank(b[0]) {
        -1
    } else if byte_rank(a[0]) > byte_rank(b[0]) {
        1
    } else {
        path_order(a.drop_first(), b.drop_first())
    }
}

/// Compares integers: -1, 0 or 1.
pub open spec fn int_order(a: int, b: int) -> int {
    if a < b {
        -1
    } else if a > b {
        1
    } else {
        0
    }
}

/// Compares ranges as the derived order does: no range first, then by start, then by end.
pub open spec fn lines_order(a: Option<LineRange>, b: Option<LineRange>) -> int {
    match (a, b) {
        (None, None) => 0,
        (None, Some(_)) => -1,
        (Some(_), None) => 1,
        (Some(x), Some(y)) => if x.start != y.start {
            int_order(x.start as int, y.start as int)
        } else {
            int_order(x.end as int, y.end as int)
        },
    }
}

/// Compares keys: by path, then by range.
pub open spec fn key_order(a: Key, b: Key) -> int {
    let c = path_order(a.0, b.0);
    if c != 0 {
        c
    } else {
        lines_order(a.1, b.1)
    }
}

proof fn lemma_path_order(a: Seq<u8>, b: Seq<u8>)
    ensures
        -1 <= path_order(a, b) <= 1,
        path_order(a, b) == -path_order(b, a),
        path_order(a, b) == 0 <==> a == b,
    decreases a.len(),
{
    if a.len() > 0 && b.len() > 0 {
        lemma_path_order(a.drop_first(), b.drop_first());
        if byte_rank(a[0]) == byte_rank(b[0]) {
            assert(a[0] == b[0]);
            if a.drop_first() == b.drop_first() {
                assert(a =~= seq![a[0]] + a.drop_first());
                assert(b =~= seq![b[0]] + b.drop_first());
            }
        }
    } else if a.len() == 0 && b.len() == 0 {
        assert(a =~= b);
    }
}

proof fn lemma_path_order_transitive(a: Seq<u8>, b: Seq<u8>, c: Seq<u8>)
    requires
        path_order(a, b) < 0,
        path_order(b, c) < 0,
    ensures
        path_order(a, c) < 0,
    decreases a.len(),
{
    if a.len() > 0 && b.len() > 0 && c.len() > 0 {
        if byte_rank(a[0]) == byte_rank(b[0]) && byte_rank(b[0]) == byte_rank(c[0]) {
            lemma_path_order_transitive(a.drop_first(), b.drop_first(), c.drop_first());
        }
    }
}

/// Keys are compared consistently: the comparison is -1, 0 or 1, antisymmetric, 0 only for equal keys,
/// and transitive.
pub proof fn lemma_key_order(a: Key, b: Key, c: Key)
    ensures
        -1 <= key_order(a, b) <= 1,
        key_order(a, b) == -key_order(b, a),
        key_order(a, b) == 0 <==> a == b,
        key_order(a, b) < 0 && key_order(b, c) < 0 ==> key_order(a, c) < 0,
{
    lemma_path_order(a.0, b.0);
    lemma_path_order(b.0, c.0);
    lemma_path_order(a.0, c.0);
    if path_order(a.0, b.0) < 0 && path_order(b.0, c.0) < 0 {
        lemma_path_order_transitive(a.0, b.0, c.0);
    }
    if key_order(a, b) == 0 {
        match (a.1, b.1) {
            (Some(x), Some(y)) => {
                assert(x == y);
            },
            _ => {},
        }
    }
}

/// What the selection holds for one target: its path's characters and its range.
pub type Selected = (Key, (Seq<char>, Option<LineRange>));

/// Strictly increasing keys: each key once, in path order.
pub open spec fn sorted(entries: Seq<Selected>) -> bool {
    forall|i: int, j: int|
        0 <= i < j < entries.len() ==> key_order(#[trigger] entries[i].0, #[trigger] entries[j].0) < 0
}

/// Whether a key is selected.
pub open spec fn has_key(entries: Seq<Selected>, key: Key) -> bool {
    exists|i: int| 0 <= i < entries.len() && #[trigger] entries[i].0 == key
}

/// Where a new key goes: before the first greater key.
pub open spec fn insert_pos(entries: Seq<Selected>, key: Key) -> int
    decreases entries.len(),
{
    if entries.len() == 0 {
        0
    } else if key_order(entries.last().0, key) < 0 {
        entries.len() as int
    } else {
        insert_pos(entries.drop_last(), key)
    }
}

/// Selecting a target under a key: the first selection of a key stays; a new key joins in order.
pub open spec fn select_entry(entries: Seq<Selected>, key: Key, target: (Seq<char>, Option<LineRange>)) -> Seq<
    Selected,
> {
    if has_key(entries, key) {
        entries
    } else {
        entries.insert(insert_pos(entries, key), (key, target))
    }
}

/// A new key's position lies within the selection.
proof fn lemma_insert_pos_bounds(entries: Seq<Selected>, key: Key)
    ensures
        0 <= insert_pos(entries, key) <= entries.len(),
    decreases entries.len(),
{
    if entries.len() > 0 {
        lemma_insert_pos_bounds(entries.drop_last(), key);
    }
}

/// In a sorted selection without `key`, `insert_pos` separates smaller keys from greater ones.
proof fn lemma_insert_pos(entries: Seq<Selected>, key: Key)
    requires
        sorted(entries),
        !has_key(entries, key),
    ensures
        0 <= insert_pos(entries, key) <= entries.len(),
        forall|i: int| 0 <= i < insert_pos(entries, key) ==> key_order(#[trigger] entries[i].0, key) < 0,
        forall|i: int|
            insert_pos(entries, key) <= i < entries.len() ==> key_order(key, #[trigger] entries[i].0) < 0,
    decreases entries.len(),
{
    if entries.len() > 0 {
        let last = entries.last().0;
        lemma_key_order(last, key, key);
        assert(entries[entries.len() - 1].0 == last);
        if key_order(last, key) < 0 {
            assert forall|i: int| 0 <= i < entries.len() implies key_order(#[trigger] entries[i].0, key) < 0 by {
                if i < entries.len() - 1 {
                    lemma_key_order(entries[i].0, last, key);
                }
            }
        } else {
            let rest = entries.drop_last();
            assert(sorted(rest));
            assert(!has_key(rest, key)) by {
                if has_key(rest, key) {
                    let i = choose|i: int| 0 <= i < rest.len() && #[trigger] rest[i].0 == key;
                    assert(entries[i].0 == key);
                }
            }
            lemma_insert_pos(rest, key);
            lemma_key_order(key, last, last);
            assert forall|i: int|
                insert_pos(entries, key) <= i < entries.len() implies key_order(key, #[trigger] entries[i].0) < 0 by {
                if i < entries.len() - 1 {
                    assert(rest[i] == entries[i]);
                }
            }
            assert forall|i: int| 0 <= i < insert_pos(entries, key) implies key_order(#[trigger] entries[i].0, key) < 0 by {
                assert(rest[i] == entries[i]);
            }
        }
    }
}

/// Selection keeps keys sorted.
pub proof fn lemma_select_sorted(entries: Seq<Selected>, key: Key, target: (Seq<char>, Option<LineRange>))
    requires
        sorted(entries),
    ensures
        sorted(select_entry(entries, key, target)),
        has_key(select_entry(entries, key, target), key),
{
    if has_key(entries, key) {
    } else {
        lemma_insert_pos(entries, key);
        let p = insert_pos(entries, key);
        let out = entries.insert(p, (key, target));
        assert(out[p].0 == key);
        assert forall|i: int, j: int|
            0 <= i < j < out.len() implies key_order(#[trigger] out[i].0, #[trigger] out[j].0) < 0 by {
            if j < p {
                assert(out[i] == entries[i] && out[j] == entries[j]);
            } else if j == p {
                assert(out[i] == entries[i]);
            } else if i == p {
                assert(out[j] == entries[j - 1]);
            } else if i < p {
                assert(out[i] == entries[i] && out[j] == entries[j - 1]);
                lemma_key_order(entries[i].0, key, entries[j - 1].0);
            } else {
                assert(out[i] == entries[i - 1] && out[j] == entries[j - 1]);
            }
        }
    }
}

/// The same file and range is selected once: selecting a key again changes nothing, whatever target it
/// comes with, and the first selection of a key adds exactly one entry.
pub proof fn selected_once(
    entries: Seq<Selected>,
    key: Key,
    first: (Seq<char>, Option<LineRange>),
    again: (Seq<char>, Option<LineRange>),
)
    requires
        sorted(entries),
    ensures
        select_entry(select_entry(entries, key, first), key, again) == select_entry(entries, key, first),
        select_entry(entries, key, first).len() == entries.len() + (if has_key(entries, key) {
            0int
        } else {
            1int
        }),
{
    lemma_select_sorted(entries, key, first);
    lemma_insert_pos_bounds(entries, key);
}

/// Different ranges of one file are kept apart: after selecting a file under two different ranges, both are
/// selected, and every key selected before stays selected with its first target.
pub proof fn ranges_kept_apart(
    entries: Seq<Selected>,
    identity: Seq<u8>,
    a: Option<LineRange>,
    b: Option<LineRange>,
    ta: (Seq<char>, Option<LineRange>),
    tb: (Seq<char>, Option<LineRange>),
)
    requires
        sorted(entries),
        a != b,
    ensures
        ({
            let after = select_entry(select_entry(entries, (identity, a), ta), (identity, b), tb);
            &&& has_key(after, (identity, a))
            &&& has_key(after, (identity, b))
            &&& forall|i: int| 0 <= i < entries.len() ==> after.contains(#[trigger] entries[i])
        }),
{
    let one = select_entry(entries, (identity, a), ta);
    lemma_select_sorted(entries, (identity, a), ta);
    lemma_select_sorted(one, (identity, b), tb);
    let after = select_entry(one, (identity, b), tb);
    lemma_select_keeps(entries, (identity, a), ta);
    lemma_select_keeps(one, (identity, b), tb);
    let ia = choose|i: int| 0 <= i < one.len() && #[trigger] one[i].0 == (identity, a);
    assert(after.contains(one[ia]));
    let j = choose|j: int| 0 <= j < after.len() && after[j] == one[ia];
    assert(after[j].0 == (identity, a));
    assert forall|i: int| 0 <= i < entries.len() implies after.contains(#[trigger] entries[i]) by {
        assert(one.contains(entries[i]));
    }
}

/// Selecting keeps every entry already selected.
proof fn lemma_select_keeps(entries: Seq<Selected>, key: Key, target: (Seq<char>, Option<LineRange>))
    ensures
        forall|i: int|
            0 <= i < entries.len() ==> select_entry(entries, key, target).contains(#[trigger] entries[i]),
{
    if !has_key(entries, key) {
        lemma_insert_pos_bounds(entries, key);
        let p = insert_pos(entries, key);
        let out = entries.insert(p, (key, target));
        assert forall|i: int| 0 <= i < entries.len() implies out.contains(#[trigger] entries[i]) by {
            if i < p {
                assert(out[i] == entries[i]);
            } else {
                assert(out[i + 1] == entries[i]);
            }
        }
    }
}

/// One entry of the selection: the canonical path's bytes, and the target as the argument named it.
#[derive(Debug)]
struct Entry {
    identity: Vec<u8>,
    target: Target,
}

impl Entry {
    spec fn view_entry(self) -> Selected {
        ((self.identity@, self.target.lines), (self.target.path@, self.target.lines))
    }
}

/// The targets selected so far, each file and range once, in path order.
#[derive(Debug)]
pub struct Selection {
    entries: Vec<Entry>,
}

/// How a walked path resolved to the identity that deduplicates it.
#[derive(Debug)]
pub enum Identity {
    /// The path is not valid UTF-8.
    NotUtf8,
    /// The path could not be canonicalized; `message` is the system's description.
    Unresolved { message: String },
    /// The canonical path's bytes.
    Canonical { bytes: Vec<u8> },
}

impl View for Selection {
    type V = Seq<Selected>;

    closed spec fn view(&self) -> Seq<Selected> {
        Seq::new(self.entries@.len(), |i: int| self.entries@[i].view_entry())
    }
}

impl Selection {
    #[verifier::type_invariant]
    spec fn well_formed(self) -> bool {
        sorted(self@)
    }

    pub fn new() -> (s: Selection)
        ensures
            s@ == Seq::<Selected>::empty(),
    {
        let s = Selection { entries: Vec::new() };
        assert(s@ =~= Seq::<Selected>::empty());
        s
    }

    /// The number of selected targets.
    pub fn len(&self) -> (n: usize)
        ensures
            n == self@.len(),
    {
        self.entries.len()
    }

    /// Compares the key of entry `i` with `key`.
    fn compare(&self, i: usize, identity: &Vec<u8>, lines: Option<LineRange>) -> (c: i8)
        requires
            i < self@.len(),
        ensures
            c as int == key_order(self@[i as int].0, (identity@, lines)),
    {
        let a = &self.entries[i].identity;
        let ghost ka = a@;
        let ghost kb = identity@;
        assert(self@[i as int] == self.entries@[i as int].view_entry());
        assert(ka.skip(0) == ka);
        assert(kb.skip(0) == kb);
        let mut k: usize = 0;
        while k < a.len() && k < identity.len() && a[k] == identity[k]
            invariant
                k <= a@.len(),
                k <= identity@.len(),
                ka == a@,
                kb == identity@,
                path_order(ka, kb) == path_order(ka.skip(k as int), kb.skip(k as int)),
            decreases a.len() - k,
        {
            assert(ka.skip(k as int)[0] == a[k as int] && kb.skip(k as int)[0] == identity[k as int]);
            assert(ka.skip(k as int).drop_first() == ka.skip(k + 1));
            assert(kb.skip(k as int).drop_first() == kb.skip(k + 1));
            k = k + 1;
        }
        let c: i8 = if k == a.len() && k == identity.len() {
            0
        } else if k == a.len() {
            -1
        } else if k == identity.len() {
            1
        } else {
            let x = a[k];
            let y = identity[k];
            assert(ka.skip(k as int)[0] == x && kb.skip(k as int)[0] == y);
            let rx: u16 = if x == 47 { 0 } else { x as u16 + 1 };
            let ry: u16 = if y == 47 { 0 } else { y as u16 + 1 };
            if rx < ry {
                -1
            } else {
                1
            }
        };
        if c != 0 {
            return c;
        }
        assert(ka.skip(k as int) =~= Seq::<u8>::empty() && kb.skip(k as int) =~= Seq::<u8>::empty());
        let other = self.entries[i].target.lines;
        match (other, lines) {
            (None, None) => 0,
            (None, Some(_)) => -1,
            (Some(_), None) => 1,
            (Some(x), Some(y)) => if x.start != y.start {
                if x.start < y.start {
                    -1
                } else {
                    1
                }
            } else if x.end < y.end {
                -1
            } else if x.end > y.end {
                1
            } else {
                0
            },
        }
    }

    /// Selects `label` under its identity and range. A path that is not UTF-8 or cannot be resolved becomes an
    /// error; the same file and range is selected once (the first selection stays), while different ranges of
    /// one file are kept apart.
    pub fn select(
        &mut self,
        errors: &mut Vec<FileError>,
        label: &str,
        identity: Identity,
        lines: Option<LineRange>,
    )
        ensures
            sorted(final(self)@),
            match identity {
                Identity::NotUtf8 => {
                    &&& final(self)@ == old(self)@
                    &&& final(errors)@.len() == old(errors)@.len() + 1
                    &&& final(errors)@.take(old(errors)@.len() as int) == old(errors)@
                    &&& final(errors)@.last().view_triple() == (label@, lines, not_utf8_path_message())
                },
                Identity::Unresolved { message } => {
                    &&& final(self)@ == old(self)@
                    &&& final(errors)@.len() == old(errors)@.len() + 1
                    &&& final(errors)@.take(old(errors)@.len() as int) == old(errors)@
                    &&& final(errors)@.last().view_triple() == (label@, lines, message@)
                },
                Identity::Canonical { bytes } => {
                    &&& final(errors)@ == old(errors)@
                    &&& final(self)@ == select_entry(old(self)@, (bytes@, lines), (label@, lines))
                },
            },
    {
        proof {
            use_type_invariant(&*self);
        }
        match identity {
            Identity::NotUtf8 => {
                proof {
                    reveal_strlit("file path is not valid UTF-8");
                }
                errors.push(FileError::new(label, lines, "file path is not valid UTF-8"));
                assert(errors@.take(old(errors)@.len() as int) =~= old(errors)@);
            },
            Identity::Unresolved { message } => {
                errors.push(FileError::new(label, lines, message.as_str()));
                assert(errors@.take(old(errors)@.len() as int) =~= old(errors)@);
            },
            Identity::Canonical { bytes } => {
                let ghost key: Key = (bytes@, lines);
                let ghost before = self@;
                let n = self.entries.len();
                let mut i: usize = 0;
                loop
                    invariant_except_break
                        key == (bytes@, lines),
                        n == self@.len(),
                        self@ == before,
                        i <= n,
                        forall|j: int| 0 <= j < i ==> key_order(#[trigger] before[j].0, key) < 0,
                    ensures
                        key == (bytes@, lines),
                        n == self@.len(),
                        self@ == before,
                        i <= n,
                        forall|j: int| 0 <= j < i ==> key_order(#[trigger] before[j].0, key) < 0,
                        i < n ==> key_order(before[i as int].0, key) >= 0,
                    decreases n - i,
                {
                    if i == n {
                        break;
                    }
                    let c = self.compare(i, &bytes, lines);
                    if c >= 0 {
                        break;
                    }
                    i = i + 1;
                }
                if i < n && self.compare(i, &bytes, lines) == 0 {
                    proof {
                        lemma_key_order(before[i as int].0, key, key);
                        assert(before[i as int].0 == key);
                        assert(has_key(before, key));
                    }
                    return;
                }
                proof {
                    assert forall|j: int| 0 <= j < before.len() implies #[trigger] before[j].0 != key by {
                        lemma_key_order(before[j].0, key, key);
                        if j > i {
                            assert(key_order(before[i as int].0, before[j].0) < 0);
                            lemma_key_order(key, before[i as int].0, before[j].0);
                            lemma_key_order(before[i as int].0, key, key);
                        }
                    }
                    assert(!has_key(before, key));
                    lemma_insert_pos(before, key);
                    lemma_select_sorted(before, key, (label@, lines));
                    let ip = insert_pos(before, key);
                    if ip < i {
                        lemma_key_order(key, before[ip].0, key);
                    } else if ip > i {
                        lemma_key_order(before[i as int].0, key, key);
                    }
                    assert(i == insert_pos(before, key));
                }
                let p = i;
                let entry = Entry { identity: bytes, target: Target { path: label.to_owned(), lines } };
                let mut entries: Vec<Entry> = Vec::new();
                std::mem::swap(&mut entries, &mut self.entries);
                entries.insert(p, entry);
                let ghost grown = Seq::new(entries@.len(), |i: int| entries@[i].view_entry());
                assert(grown =~= before.insert(p as int, (key, (label@, lines))));
                self.entries = entries;
                assert(self@ =~= grown);
            },
        }
    }

    /// The selected targets in path order, with the errors found while selecting them.
    pub fn into_discovery(self, errors: Vec<FileError>) -> (d: Discovery)
        ensures
            d.errors == errors,
            d.targets@.len() == self@.len(),
            forall|i: int|
                0 <= i < self@.len() ==> (#[trigger] d.targets@[i]).view_pair() == self@[i].1,
    {
        let mut targets: Vec<Target> = Vec::new();
        let ghost view = self@;
        let entries = self.entries;
        let mut i: usize = 0;
        while i < entries.len()
            invariant
                i <= entries@.len(),
                view.len() == entries@.len(),
                forall|j: int| 0 <= j < entries@.len() ==> view[j] == (#[trigger] entries@[j]).view_entry(),
                targets@.len() == i,
                forall|j: int| 0 <= j < i ==> (#[trigger] targets@[j]).view_pair() == view[j].1,
            decreases entries.len() - i,
        {
            let t = Target { path: entries[i].target.path.clone(), lines: entries[i].target.lines };
            targets.push(t);
            i = i + 1;
        }
        Discovery { targets, errors }
    }
}

} // verus!
