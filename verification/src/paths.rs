//! Path text: lexicographic order on paths, file-name and extension
//! extraction, and the test for recognized image extensions.
//!
//! Paths are plain strings; the file name is what follows the last `/`, and
//! the extension is what follows the last `.` of the file name, provided that
//! dot is not its first character.

use vstd::prelude::*;
use vstd::string::StrSliceExecFns;

verus! {

/// Lexicographic order on character sequences by Unicode scalar value;
/// a prefix comes before every sequence that extends it.
pub open spec fn lex_le(a: Seq<char>, b: Seq<char>) -> bool
    decreases a.len(),
{
    if a.len() == 0 {
        true
    } else if b.len() == 0 {
        false
    } else if (a[0] as u32) < (b[0] as u32) {
        true
    } else if (a[0] as u32) > (b[0] as u32) {
        false
    } else {
        lex_le(a.drop_first(), b.drop_first())
    }
}

/// Characters with the same scalar value are the same character.
proof fn lemma_char_scalar_inj(x: char, y: char)
    requires
        x as u32 == y as u32,
    ensures
        x == y,
{
}

/// Any two sequences are related one way or the other.
pub proof fn lemma_lex_le_total(a: Seq<char>, b: Seq<char>)
    ensures
        lex_le(a, b) || lex_le(b, a),
    decreases a.len(),
{
    if a.len() != 0 && b.len() != 0 && a[0] as u32 == b[0] as u32 {
        lemma_lex_le_total(a.drop_first(), b.drop_first());
    }
}

/// The order is transitive.
pub proof fn lemma_lex_le_trans(a: Seq<char>, b: Seq<char>, c: Seq<char>)
    requires
        lex_le(a, b),
        lex_le(b, c),
    ensures
        lex_le(a, c),
    decreases a.len(),
{
    if a.len() != 0 {
        assert(b.len() != 0);
        assert(c.len() != 0);
        if a[0] as u32 == b[0] as u32 && b[0] as u32 == c[0] as u32 {
            lemma_lex_le_trans(a.drop_first(), b.drop_first(), c.drop_first());
        }
    }
}

/// Dropping an equal prefix from both sides leaves the order unchanged.
pub proof fn lemma_lex_le_common_prefix(a: Seq<char>, b: Seq<char>, i: int)
    requires
        0 <= i <= a.len(),
        i <= b.len(),
        forall|j: int| 0 <= j < i ==> a[j] == b[j],
    ensures
        lex_le(a, b) == lex_le(a.skip(i), b.skip(i)),
    decreases i,
{
    if i > 0 {
        assert(a[0] == b[0]);
        assert forall|j: int| 0 <= j < i - 1 implies a.drop_first()[j] == b.drop_first()[j] by {
            assert(a.drop_first()[j] == a[j + 1]);
            assert(b.drop_first()[j] == b[j + 1]);
        }
        lemma_lex_le_common_prefix(a.drop_first(), b.drop_first(), i - 1);
        assert(a.drop_first().skip(i - 1) =~= a.skip(i));
        assert(b.drop_first().skip(i - 1) =~= b.skip(i));
    } else {
        assert(a.skip(0) =~= a);
        assert(b.skip(0) =~= b);
    }
}

/// Decides the lexicographic order on two strings.
pub fn str_lex_le(a: &str, b: &str) -> (r: bool)
    ensures
        r == lex_le(a@, b@),
{
    let alen = a.unicode_len();
    let blen = b.unicode_len();
    let mut i: usize = 0;
    while i < alen && i < blen
        invariant
            alen == a@.len(),
            blen == b@.len(),
            i <= alen,
            i <= blen,
            forall|j: int| 0 <= j < i ==> a@[j] == b@[j],
        decreases alen - i,
    {
        let ca = a.get_char(i);
        let cb = b.get_char(i);
        if (ca as u32) != (cb as u32) {
            proof {
                lemma_lex_le_common_prefix(a@, b@, i as int);
                assert(a@.skip(i as int)[0] == a@[i as int]);
                assert(b@.skip(i as int)[0] == b@[i as int]);
            }
            return (ca as u32) < (cb as u32);
        }
        proof {
            lemma_char_scalar_inj(ca, cb);
        }
        i += 1;
    }
    proof {
        lemma_lex_le_common_prefix(a@, b@, i as int);
        if alen <= blen {
            assert(a@.skip(i as int).len() == 0);
        } else {
            assert(b@.skip(i as int).len() == 0);
            assert(a@.skip(i as int).len() > 0);
        }
    }
    alen <= blen
}

/// Decides equality of two strings' character sequences.
pub fn str_eq(a: &str, b: &str) -> (r: bool)
    ensures
        r == (a@ == b@),
{
    let alen = a.unicode_len();
    let blen = b.unicode_len();
    if alen != blen {
        return false;
    }
    let mut i: usize = 0;
    while i < alen
        invariant
            alen == a@.len(),
            blen == b@.len(),
            alen == blen,
            i <= alen,
            forall|j: int| 0 <= j < i ==> a@[j] == b@[j],
        decreases alen - i,
    {
        let ca = a.get_char(i);
        let cb = b.get_char(i);
        if (ca as u32) != (cb as u32) {
            proof {
                if a@ == b@ {
                    assert(a@[i as int] == b@[i as int]);
                }
            }
            return false;
        }
        proof {
            lemma_char_scalar_inj(ca, cb);
        }
        i += 1;
    }
    proof {
        assert(a@ =~= b@);
    }
    true
}

/// The file name of a path: the characters after the last `/`, or the whole
/// path when it holds none.
pub open spec fn file_name_of(p: Seq<char>) -> Seq<char>
    decreases p.len(),
{
    if p.len() == 0 {
        p
    } else if p.last() == '/' {
        Seq::empty()
    } else {
        file_name_of(p.drop_last()).push(p.last())
    }
}

/// When no `/` occurs at or after position `i`, the file name is the file
/// name of the prefix followed by the suffix.
proof fn lemma_file_name_suffix(p: Seq<char>, i: int)
    requires
        0 <= i <= p.len(),
        forall|j: int| i <= j < p.len() ==> p[j] != '/',
    ensures
        file_name_of(p) == file_name_of(p.take(i)) + p.skip(i),
    decreases p.len() - i,
{
    if i == p.len() {
        assert(p.take(i) =~= p);
        assert(file_name_of(p) + p.skip(i) =~= file_name_of(p));
    } else {
        assert(p.last() != '/');
        lemma_file_name_suffix(p.drop_last(), i);
        assert(p.drop_last().take(i) =~= p.take(i));
        let fpre = file_name_of(p.take(i));
        assert((fpre + p.drop_last().skip(i)).push(p.last()) =~= fpre + p.skip(i));
    }
}

/// Returns the file-name part of a path.
pub fn file_name_str<'a>(p: &'a str) -> (r: &'a str)
    ensures
        r@ == file_name_of(p@),
{
    let n = p.unicode_len();
    let mut i: usize = n;
    while i > 0
        invariant
            n == p@.len(),
            i <= n,
            forall|j: int| i <= j < n ==> p@[j] != '/',
        decreases i,
    {
        if p.get_char(i - 1) == '/' {
            let r = p.substring_char(i, n);
            proof {
                lemma_file_name_suffix(p@, i as int);
                assert(p@.take(i as int).last() == p@[i as int - 1]);
                assert(file_name_of(p@.take(i as int)) =~= Seq::<char>::empty());
                assert(Seq::<char>::empty() + p@.skip(i as int) =~= p@.skip(i as int));
                assert(r@ =~= p@.skip(i as int));
            }
            return r;
        }
        i -= 1;
    }
    proof {
        lemma_file_name_suffix(p@, 0);
        assert(p@.take(0).len() == 0);
        assert(file_name_of(p@.take(0)) =~= Seq::<char>::empty());
        assert(file_name_of(p@.take(0)) + p@.skip(0) =~= p@);
    }
    p
}

/// The extension of a file name: the characters after its last `.`, unless
/// that dot is the first character or there is no dot at all.
pub open spec fn ext_of(name: Seq<char>) -> Option<Seq<char>>
    decreases name.len(),
{
    if name.len() <= 1 {
        None
    } else if name.last() == '.' {
        Some(Seq::empty())
    } else {
        match ext_of(name.drop_last()) {
            Some(e) => Some(e.push(name.last())),
            None => None,
        }
    }
}

/// When no `.` occurs at or after position `i`, the extension is the prefix's
/// extension extended by the suffix.
proof fn lemma_ext_suffix(name: Seq<char>, i: int)
    requires
        0 <= i <= name.len(),
        forall|j: int| i <= j < name.len() ==> name[j] != '.',
    ensures
        ext_of(name) == match ext_of(name.take(i)) {
            Some(e) => Some(e + name.skip(i)),
            None => None::<Seq<char>>,
        },
    decreases name.len() - i,
{
    if i == name.len() {
        assert(name.take(i) =~= name);
        match ext_of(name) {
            Some(e) => {
                assert(e + name.skip(i) =~= e);
            }
            None => {}
        }
    } else {
        assert(name.last() != '.');
        lemma_ext_suffix(name.drop_last(), i);
        assert(name.drop_last().take(i) =~= name.take(i));
        match ext_of(name.take(i)) {
            Some(e) => {
                assert((e + name.drop_last().skip(i)).push(name.last()) =~= e + name.skip(i));
            }
            None => {}
        }
    }
}

/// The scalar value of a character with an upper-case ASCII letter folded to
/// its lower-case counterpart.
pub open spec fn lower_scalar(c: char) -> int {
    let u = c as u32;
    if 65 <= u && u <= 90 {
        u + 32
    } else {
        u as int
    }
}

/// Whether a candidate extension equals a lower-case literal, comparing
/// ASCII letters without regard to case.
pub open spec fn matches_ext(e: Seq<char>, lit: Seq<char>) -> bool {
    e.len() == lit.len() && forall|i: int|
        0 <= i < e.len() ==> lower_scalar(e[i]) == lit[i] as u32
}

/// The recognized image extensions.
pub open spec fn is_image_ext(e: Seq<char>) -> bool {
    ||| matches_ext(e, seq!['j', 'p', 'g'])
    ||| matches_ext(e, seq!['j', 'p', 'e', 'g'])
    ||| matches_ext(e, seq!['p', 'n', 'g'])
    ||| matches_ext(e, seq!['g', 'i', 'f'])
    ||| matches_ext(e, seq!['w', 'e', 'b', 'p'])
    ||| matches_ext(e, seq!['t', 'i', 'f', 'f'])
    ||| matches_ext(e, seq!['b', 'm', 'p'])
}

/// Whether a path's file name carries one of the recognized image
/// extensions.
pub open spec fn is_image_path(p: Seq<char>) -> bool {
    match ext_of(file_name_of(p)) {
        Some(e) => is_image_ext(e),
        None => false,
    }
}

/// Compares a candidate extension with a lower-case literal, folding ASCII
/// case.
fn ext_eq_lower(e: &str, lit: &str) -> (r: bool)
    ensures
        r == matches_ext(e@, lit@),
{
    let elen = e.unicode_len();
    let llen = lit.unicode_len();
    if elen != llen {
        return false;
    }
    let mut i: usize = 0;
    while i < elen
        invariant
            elen == e@.len(),
            llen == lit@.len(),
            elen == llen,
            i <= elen,
            forall|j: int| 0 <= j < i ==> lower_scalar(e@[j]) == lit@[j] as u32,
        decreases elen - i,
    {
        let c = e.get_char(i);
        let d = lit.get_char(i);
        let u = c as u32;
        let lu = if 65 <= u && u <= 90 {
            u + 32
        } else {
            u
        };
        if lu != d as u32 {
            return false;
        }
        i += 1;
    }
    true
}

/// Whether a path names a file with a recognized image extension.
pub fn is_image_file(path: &str) -> (r: bool)
    ensures
        r == is_image_path(path@),
{
    let name = file_name_str(path);
    let n = name.unicode_len();
    let mut i: usize = n;
    while i > 0
        invariant
            n == name@.len(),
            name@ == file_name_of(path@),
            i <= n,
            forall|j: int| i <= j < n ==> name@[j] != '.',
        decreases i,
    {
        if name.get_char(i - 1) == '.' {
            if i == 1 {
                proof {
                    lemma_ext_suffix(name@, 1);
                    assert(name@.take(1).len() == 1);
                    assert(ext_of(name@.take(1)) is None);
                }
                return false;
            }
            let ext = name.substring_char(i, n);
            proof {
                lemma_ext_suffix(name@, i as int);
                assert(name@.take(i as int).len() >= 2);
                assert(name@.take(i as int).last() == name@[i as int - 1]);
                assert(ext_of(name@.take(i as int)) == Some(Seq::<char>::empty()));
                assert(Seq::<char>::empty() + name@.skip(i as int) =~= name@.skip(i as int));
                assert(ext_of(name@) == Some(name@.skip(i as int)));
                assert(ext@ =~= name@.skip(i as int));
                reveal_strlit("jpg");
                reveal_strlit("jpeg");
                reveal_strlit("png");
                reveal_strlit("gif");
                reveal_strlit("webp");
                reveal_strlit("tiff");
                reveal_strlit("bmp");
                assert("jpg"@ =~= seq!['j', 'p', 'g']);
                assert("jpeg"@ =~= seq!['j', 'p', 'e', 'g']);
                assert("png"@ =~= seq!['p', 'n', 'g']);
                assert("gif"@ =~= seq!['g', 'i', 'f']);
                assert("webp"@ =~= seq!['w', 'e', 'b', 'p']);
                assert("tiff"@ =~= seq!['t', 'i', 'f', 'f']);
                assert("bmp"@ =~= seq!['b', 'm', 'p']);
            }
            return ext_eq_lower(ext, "jpg") || ext_eq_lower(ext, "jpeg") || ext_eq_lower(
                ext,
                "png",
            ) || ext_eq_lower(ext, "gif") || ext_eq_lower(ext, "webp") || ext_eq_lower(ext, "tiff")
                || ext_eq_lower(ext, "bmp");
        }
        i -= 1;
    }
    proof {
        lemma_ext_suffix(name@, 0);
        assert(name@.take(0).len() == 0);
        assert(ext_of(name@.take(0)) is None);
    }
    false
}

} // verus!
