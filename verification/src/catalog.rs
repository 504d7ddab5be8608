//! The ordered set of discovered image paths and the selection cursor.
//!
//! A catalog is built from a directory listing (the shell walks the
//! directory; the catalog keeps the paths whose file names carry a
//! recognized image extension, in lexicographic order), and is then driven
//! by navigation and deletion. The cursor always indexes a valid entry
//! while the catalog is non-empty.

use vstd::prelude::*;
use vstd::string::StrSliceExecFns;
use crate::errors::ViewerError;
use crate::paths::{
    file_name_of, file_name_str, is_image_file, is_image_path, lemma_lex_le_total,
    lemma_lex_le_trans, lex_le, str_eq, str_lex_le,
};

verus! {

/// Which neighbour of the current entry to select.
#[derive(Clone, Copy, Debug, PartialEq, Eq, Structural)]
pub enum Direction {
    Next,
    Previous,
}

/// The character sequences of a sequence of path strings.
pub open spec fn path_views(v: Seq<String>) -> Seq<Seq<char>> {
    v.map_values(|p: String| p@)
}

/// Lexicographically non-decreasing.
pub open spec fn paths_sorted(s: Seq<Seq<char>>) -> bool {
    forall|i: int, j: int| 0 <= i < j < s.len() ==> lex_le(s[i], s[j])
}

/// The image paths of a listing, in listing order.
pub open spec fn image_paths(listing: Seq<String>) -> Seq<Seq<char>>
    decreases listing.len(),
{
    if listing.len() == 0 {
        Seq::empty()
    } else {
        let rest = image_paths(listing.drop_last());
        if is_image_path(listing.last()@) {
            rest.push(listing.last()@)
        } else {
            rest
        }
    }
}

/// The index of the first entry whose file name equals the target, if any.
pub open spec fn first_match(entries: Seq<Seq<char>>, t: Seq<char>) -> Option<int>
    decreases entries.len(),
{
    if entries.len() == 0 {
        None
    } else if file_name_of(entries[0]) == t {
        Some(0int)
    } else {
        match first_match(entries.drop_first(), t) {
            Some(i) => Some(i + 1),
            None => None,
        }
    }
}

/// Where the cursor lands after a scan with a target file name: the first
/// entry with that file name, or the front when none matches.
pub open spec fn target_cursor(entries: Seq<Seq<char>>, t: Seq<char>) -> int {
    match first_match(entries, t) {
        Some(i) => i,
        None => 0,
    }
}

/// The cursor one step forward, wrapping past the end.
pub open spec fn next_index(cur: int, len: int) -> int {
    if cur + 1 < len {
        cur + 1
    } else {
        0
    }
}

/// The cursor one step backward, wrapping past the front.
pub open spec fn prev_index(cur: int, len: int) -> int {
    if cur == 0 {
        len - 1
    } else {
        cur - 1
    }
}

/// The cursor after removing the entry it pointed at: clamped to the new
/// last entry when it pointed past the end, zero on an emptied catalog.
pub open spec fn clamped_cursor(cur: int, new_len: int) -> int {
    if new_len == 0 {
        0
    } else if cur >= new_len {
        new_len - 1
    } else {
        cur
    }
}

/// The ordered image paths of one directory and the selection cursor.
pub struct ImageCatalog {
    entries: Vec<String>,
    cursor: usize,
}

impl ImageCatalog {
    /// The entries' character sequences, in catalog order.
    pub closed spec fn entries(&self) -> Seq<Seq<char>> {
        path_views(self.entries@)
    }

    /// The current selection index.
    pub closed spec fn cursor(&self) -> int {
        self.cursor as int
    }

    /// Entries are sorted and the cursor indexes a valid entry whenever any
    /// exists (and rests at zero otherwise).
    pub open spec fn wf(&self) -> bool {
        &&& paths_sorted(self.entries())
        &&& if self.entries().len() == 0 {
            self.cursor() == 0
        } else {
            0 <= self.cursor() < self.entries().len()
        }
    }

    /// Builds a catalog from a directory listing: keeps the paths with a
    /// recognized image extension, sorted lexicographically; selects the
    /// first entry whose file name equals the target, or the front entry.
    /// Reports `EmptyCatalog` when the listing holds no image paths.
    pub fn scan(listing: &Vec<String>, target: Option<&String>) -> (r: Result<
        ImageCatalog,
        ViewerError,
    >)
        ensures
            r is Ok <==> image_paths(listing@).len() > 0,
            match r {
                Ok(c) => {
                    &&& c.wf()
                    &&& c.entries().len() == image_paths(listing@).len()
                    &&& c.entries().to_multiset() == image_paths(listing@).to_multiset()
                    &&& c.cursor() == match target {
                        Some(t) => target_cursor(c.entries(), t@),
                        None => 0int,
                    }
                },
                Err(e) => e == ViewerError::EmptyCatalog,
            },
    {
        let mut entries: Vec<String> = Vec::new();
        let mut idx: usize = 0;
        proof {
            assert(listing@.subrange(0, 0) =~= Seq::<String>::empty());
            assert(path_views(entries@) =~= Seq::<Seq<char>>::empty());
            assert(path_views(entries@).to_multiset() =~= image_paths(
                listing@.subrange(0, 0),
            ).to_multiset());
        }
        while idx < listing.len()
            invariant
                idx <= listing@.len(),
                paths_sorted(path_views(entries@)),
                path_views(entries@).to_multiset() == image_paths(
                    listing@.subrange(0, idx as int),
                ).to_multiset(),
                entries@.len() == image_paths(listing@.subrange(0, idx as int)).len(),
            decreases listing@.len() - idx,
        {
            let ghost pre = listing@.subrange(0, idx as int);
            let p = &listing[idx];
            proof {
                broadcast use vstd::seq_lib::group_to_multiset_ensures;

                assert(listing@.subrange(0, idx + 1).drop_last() =~= pre);
                assert(listing@.subrange(0, idx + 1).last() == listing@[idx as int]);
                assert(image_paths(pre).push(listing@[idx as int]@).to_multiset() == image_paths(
                    pre,
                ).to_multiset().insert(listing@[idx as int]@));
            }
            if is_image_file(p.as_str()) {
                insert_sorted(&mut entries, p.clone());
            }
            idx += 1;
        }
        proof {
            assert(listing@.subrange(0, listing@.len() as int) =~= listing@);
        }
        if entries.len() == 0 {
            proof {
                assert(path_views(entries@).len() == entries@.len());
            }
            return Err(ViewerError::EmptyCatalog);
        }
        let cursor: usize = match target {
            Some(t) => find_file_name(&entries, t),
            None => 0,
        };
        let c = ImageCatalog { entries, cursor };
        proof {
            assert(c.entries().len() == c.entries@.len());
        }
        Ok(c)
    }

    /// The number of entries.
    pub fn len(&self) -> (r: usize)
        ensures
            r == self.entries().len(),
    {
        let r = self.entries.len();
        proof {
            assert(self.entries().len() == self.entries@.len());
        }
        r
    }

    /// Whether the catalog holds no entries.
    pub fn is_empty(&self) -> (r: bool)
        ensures
            r == (self.entries().len() == 0),
    {
        self.len() == 0
    }

    /// The current selection index.
    pub fn cursor_position(&self) -> (r: usize)
        ensures
            r == self.cursor(),
    {
        self.cursor
    }

    /// The entry at a given index.
    pub fn entry_at(&self, i: usize) -> (r: &String)
        requires
            i < self.entries().len(),
        ensures
            r@ == self.entries()[i as int],
    {
        proof {
            assert(self.entries().len() == self.entries@.len());
        }
        &self.entries[i]
    }

    /// The currently selected path; `EmptyCatalog` when none exists.
    pub fn current(&self) -> (r: Result<&String, ViewerError>)
        requires
            self.wf(),
        ensures
            match r {
                Ok(p) => self.entries().len() > 0 && p@ == self.entries()[self.cursor()],
                Err(e) => e == ViewerError::EmptyCatalog && self.entries().len() == 0,
            },
    {
        proof {
            assert(self.entries().len() == self.entries@.len());
        }
        if self.entries.len() == 0 {
            Err(ViewerError::EmptyCatalog)
        } else {
            Ok(&self.entries[self.cursor])
        }
    }

    /// Moves the cursor one step with wraparound; the entries are untouched.
    /// `EmptyCatalog` when the catalog is empty.
    pub fn advance(&mut self, direction: Direction) -> (r: Result<(), ViewerError>)
        requires
            old(self).wf(),
        ensures
            final(self).wf(),
            final(self).entries() == old(self).entries(),
            r is Ok <==> old(self).entries().len() > 0,
            match r {
                Ok(u) => final(self).cursor() == match direction {
                    Direction::Next => next_index(
                        old(self).cursor(),
                        old(self).entries().len() as int,
                    ),
                    Direction::Previous => prev_index(
                        old(self).cursor(),
                        old(self).entries().len() as int,
                    ),
                },
                Err(e) => e == ViewerError::EmptyCatalog && *final(self) == *old(self),
            },
    {
        proof {
            assert(self.entries().len() == self.entries@.len());
        }
        if self.entries.len() == 0 {
            return Err(ViewerError::EmptyCatalog);
        }
        match direction {
            Direction::Next => {
                if self.cursor + 1 < self.entries.len() {
                    self.cursor = self.cursor + 1;
                } else {
                    self.cursor = 0;
                }
            }
            Direction::Previous => {
                if self.cursor == 0 {
                    self.cursor = self.entries.len() - 1;
                } else {
                    self.cursor = self.cursor - 1;
                }
            }
        }
        Ok(())
    }

    /// Removes the currently selected entry and re-clamps the cursor.
    /// Returns whether the catalog is now empty, so the caller knows to
    /// clear presentation state instead of reloading. `EmptyCatalog` when
    /// nothing is selected; `MissingFile` when the caller found the selected
    /// path gone from disk. Removing the file from disk is the caller's
    /// step; `file_present` reports what it found, and on any failure the
    /// catalog is left exactly as it was.
    pub fn delete_current(&mut self, file_present: bool) -> (r: Result<bool, ViewerError>)
        requires
            old(self).wf(),
        ensures
            final(self).wf(),
            r is Ok <==> old(self).entries().len() > 0 && file_present,
            match r {
                Ok(now_empty) => {
                    &&& final(self).entries() == old(self).entries().remove(old(self).cursor())
                    &&& final(self).entries().len() == old(self).entries().len() - 1
                    &&& now_empty == (final(self).entries().len() == 0)
                    &&& final(self).cursor() == clamped_cursor(
                        old(self).cursor(),
                        final(self).entries().len() as int,
                    )
                    &&& old(self).cursor() < final(self).entries().len()
                        ==> final(self).entries()[final(self).cursor()]
                        == old(self).entries()[old(self).cursor() + 1]
                },
                Err(e) => {
                    &&& *final(self) == *old(self)
                    &&& e == if old(self).entries().len() == 0 {
                        ViewerError::EmptyCatalog
                    } else {
                        ViewerError::MissingFile
                    }
                },
            },
    {
        proof {
            assert(self.entries().len() == self.entries@.len());
        }
        if self.entries.len() == 0 {
            return Err(ViewerError::EmptyCatalog);
        }
        if !file_present {
            return Err(ViewerError::MissingFile);
        }
        let ghost old_views = self.entries();
        let ghost cur = self.cursor as int;
        self.entries.remove(self.cursor);
        proof {
            assert(path_views(self.entries@) =~= old_views.remove(cur));
            assert forall|i: int, j: int|
                0 <= i < j < old_views.remove(cur).len() implies lex_le(
                old_views.remove(cur)[i],
                old_views.remove(cur)[j],
            ) by {
                let s = old_views.remove(cur);
                let oi = if i < cur {
                    i
                } else {
                    i + 1
                };
                let oj = if j < cur {
                    j
                } else {
                    j + 1
                };
                assert(s[i] == old_views[oi]);
                assert(s[j] == old_views[oj]);
            }
        }
        if self.cursor >= self.entries.len() && self.entries.len() > 0 {
            self.cursor = self.entries.len() - 1;
        } else if self.entries.len() == 0 {
            self.cursor = 0;
        }
        proof {
            assert(self.entries().len() == self.entries@.len());
        }
        Ok(self.entries.len() == 0)
    }
}

/// Inserts a path into a sorted vector, keeping it sorted; the contents grow
/// by exactly that path.
fn insert_sorted(entries: &mut Vec<String>, p: String)
    requires
        paths_sorted(path_views(old(entries)@)),
    ensures
        paths_sorted(path_views(final(entries)@)),
        final(entries)@.len() == old(entries)@.len() + 1,
        path_views(final(entries)@).to_multiset() == path_views(
            old(entries)@,
        ).to_multiset().insert(p@),
{
    let ghost old_views = path_views(entries@);
    let mut j: usize = 0;
    while j < entries.len() && str_lex_le(entries[j].as_str(), p.as_str())
        invariant
            paths_sorted(path_views(entries@)),
            entries@ == old(entries)@,
            j <= entries@.len(),
            forall|k: int| 0 <= k < j ==> lex_le(path_views(entries@)[k], p@),
        decreases entries@.len() - j,
    {
        j += 1;
    }
    proof {
        assert(old_views.len() == entries@.len());
        if (j as int) < old_views.len() {
            assert(!lex_le(old_views[j as int], p@));
            lemma_lex_le_total(old_views[j as int], p@);
            assert forall|k: int| j <= k < old_views.len() implies lex_le(p@, old_views[k]) by {
                if k > j {
                    lemma_lex_le_trans(p@, old_views[j as int], old_views[k]);
                }
            }
        }
    }
    entries.insert(j, p);
    proof {
        let new_views = path_views(entries@);
        assert(new_views =~= old_views.insert(j as int, p@));
        assert forall|a: int, b: int| 0 <= a < b < new_views.len() implies lex_le(
            new_views[a],
            new_views[b],
        ) by {
            let oa = if a < j {
                a
            } else {
                a - 1
            };
            let ob = if b < j {
                b
            } else {
                b - 1
            };
            if a == j {
                assert(new_views[a] == p@);
                assert(new_views[b] == old_views[ob]);
            } else if b == j {
                assert(new_views[b] == p@);
                assert(new_views[a] == old_views[oa]);
            } else {
                assert(new_views[a] == old_views[oa]);
                assert(new_views[b] == old_views[ob]);
            }
        }
        lemma_insert_multiset(old_views, j as int, p@);
    }
}

/// Finds the first entry whose file name equals the target, or zero.
fn find_file_name(entries: &Vec<String>, target: &String) -> (r: usize)
    requires
        entries@.len() > 0,
    ensures
        r == target_cursor(path_views(entries@), target@),
        r < entries@.len(),
{
    let ghost views = path_views(entries@);
    let n = entries.len();
    let mut i: usize = 0;
    while i < n
        invariant
            n == entries@.len(),
            i <= n,
            views == path_views(entries@),
            forall|k: int| 0 <= k < i ==> file_name_of(views[k]) != target@,
        decreases n - i,
    {
        let name = file_name_str(entries[i].as_str());
        if str_eq(name, target.as_str()) {
            proof {
                lemma_first_match_skip(views, target@, i as int);
                assert(views.skip(i as int)[0] == views[i as int]);
                assert(first_match(views.skip(i as int), target@) == Some(0int));
            }
            return i;
        }
        i += 1;
    }
    proof {
        lemma_first_match_skip(views, target@, n as int);
        assert(views.skip(n as int).len() == 0);
    }
    0
}

/// Removing the entries before position `i` (none of which matches) shifts
/// the first match by `i`.
proof fn lemma_first_match_skip(entries: Seq<Seq<char>>, t: Seq<char>, i: int)
    requires
        0 <= i <= entries.len(),
        forall|k: int| 0 <= k < i ==> file_name_of(entries[k]) != t,
    ensures
        first_match(entries, t) == match first_match(entries.skip(i), t) {
            Some(k) => Some(k + i),
            None => None::<int>,
        },
    decreases i,
{
    if i == 0 {
        assert(entries.skip(0) =~= entries);
        match first_match(entries, t) {
            Some(k) => {}
            None => {}
        }
    } else {
        assert(entries.len() > 0);
        assert(file_name_of(entries[0]) != t);
        assert forall|k: int| 0 <= k < i - 1 implies file_name_of(entries.drop_first()[k]) != t by {
            assert(entries.drop_first()[k] == entries[k + 1]);
        }
        lemma_first_match_skip(entries.drop_first(), t, i - 1);
        assert(entries.drop_first().skip(i - 1) =~= entries.skip(i));
    }
}

/// Inserting an element anywhere adds exactly it to the contents.
proof fn lemma_insert_multiset(s: Seq<Seq<char>>, i: int, x: Seq<char>)
    requires
        0 <= i <= s.len(),
    ensures
        s.insert(i, x).to_multiset() == s.to_multiset().insert(x),
{
    broadcast use vstd::seq_lib::group_to_multiset_ensures;

    assert(s.insert(i, x) =~= s.take(i).push(x) + s.skip(i));
    vstd::seq_lib::lemma_multiset_commutative(s.take(i).push(x), s.skip(i));
    vstd::seq_lib::lemma_multiset_commutative(s.take(i), s.skip(i));
    assert(s =~= s.take(i) + s.skip(i));
    assert(s.take(i).push(x).to_multiset() =~= s.take(i).to_multiset().insert(x));
    assert(s.take(i).to_multiset().insert(x).add(s.skip(i).to_multiset()) =~= s.take(
        i,
    ).to_multiset().add(s.skip(i).to_multiset()).insert(x));
}

/// Stepping forward `n` times from a valid cursor lands on
/// `(cursor + n) - len` once the sum wraps, and on `cursor + n` before that.
pub open spec fn iterate_next(cur: int, len: int, n: nat) -> int
    decreases n,
{
    if n == 0 {
        cur
    } else {
        iterate_next(next_index(cur, len), len, (n - 1) as nat)
    }
}

/// Up to one wraparound, forward steps add up.
proof fn lemma_iterate_next_adds(cur: int, len: int, n: nat)
    requires
        0 <= cur < len,
        n <= len,
    ensures
        iterate_next(cur, len, n) == if cur + n < len {
            cur + n
        } else {
            cur + n - len
        },
    decreases n,
{
    if n > 0 {
        lemma_iterate_next_adds(next_index(cur, len), len, (n - 1) as nat);
    }
}

/// Stepping forward as many times as there are entries returns the cursor
/// to its starting value: the wraparound closes.
pub proof fn lemma_next_wraps_around(cur: int, len: int)
    requires
        0 <= cur < len,
    ensures
        iterate_next(cur, len, len as nat) == cur,
{
    lemma_iterate_next_adds(cur, len, len as nat);
}

/// One step backward undoes one step forward, and the other way round.
pub proof fn lemma_prev_inverts_next(cur: int, len: int)
    requires
        0 <= cur < len,
    ensures
        prev_index(next_index(cur, len), len) == cur,
        next_index(prev_index(cur, len), len) == cur,
{
}

} // verus!
