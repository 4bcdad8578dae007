//! Text semantics shared by the record stores.
//!
//! The database compares and orders text the way SQL does: `TRIM` strips
//! leading and trailing spaces, `LOWER` folds only the ASCII letters,
//! `ORDER BY` on a text column sorts by code point, and a text value used
//! where an integer key is expected designates the number its digits
//! spell.  This module states those rules as spec functions and proves
//! executable counterparts against them.

use vstd::prelude::*;
use vstd::string::*;

verus! {

/// Lower-cases one character the way SQL's LOWER does: only the ASCII
/// letters 'A' through 'Z' are folded; every other character is kept.
pub open spec fn lower_char(c: char) -> char {
    if 'A' <= c && c <= 'Z' {
        (((c as u8) + 32) as char)
    } else {
        c
    }
}

/// Character-wise ASCII lower-casing of a whole string.
pub open spec fn fold_lower(s: Seq<char>) -> Seq<char> {
    s.map_values(|c: char| lower_char(c))
}

/// The end of the run of spaces that starts at `i`.
pub open spec fn space_run_end(s: Seq<char>, i: int) -> int
    decreases s.len() - i,
{
    if i < s.len() && s[i] == ' ' {
        space_run_end(s, i + 1)
    } else {
        i
    }
}

/// The start of the run of spaces that ends at `j`.
pub open spec fn space_run_start(s: Seq<char>, j: int) -> int
    decreases j,
{
    if j > 0 && s[j - 1] == ' ' {
        space_run_start(s, j - 1)
    } else {
        j
    }
}

/// `TRIM(s)`: the string without its leading and trailing spaces.
pub open spec fn trim_spaces(s: Seq<char>) -> Seq<char> {
    let lo = space_run_end(s, 0);
    let hi = space_run_start(s, s.len() as int);
    if lo <= hi {
        s.subrange(lo, hi)
    } else {
        Seq::empty()
    }
}

/// The key under which the database compares class names:
/// `LOWER(TRIM(s))`.
pub open spec fn name_key(s: Seq<char>) -> Seq<char> {
    fold_lower(trim_spaces(s))
}

pub proof fn lemma_space_run_end_bounds(s: Seq<char>, i: int)
    requires
        0 <= i <= s.len(),
    ensures
        i <= space_run_end(s, i) <= s.len(),
        forall|k: int| i <= k < space_run_end(s, i) ==> s[k] == ' ',
        space_run_end(s, i) < s.len() ==> s[space_run_end(s, i)] != ' ',
    decreases s.len() - i,
{
    if i < s.len() && s[i] == ' ' {
        lemma_space_run_end_bounds(s, i + 1);
    }
}

pub proof fn lemma_space_run_start_bounds(s: Seq<char>, j: int)
    requires
        0 <= j <= s.len(),
    ensures
        0 <= space_run_start(s, j) <= j,
        forall|k: int| space_run_start(s, j) <= k < j ==> s[k] == ' ',
        space_run_start(s, j) > 0 ==> s[space_run_start(s, j) - 1] != ' ',
    decreases j,
{
    if j > 0 && s[j - 1] == ' ' {
        lemma_space_run_start_bounds(s, j - 1);
    }
}

/// `TRIM`, executable: returns the substring between the first and the
/// last character that is not a space.
pub fn trim(s: &str) -> (r: String)
    ensures
        r@ == trim_spaces(s@),
{
    let n = s.unicode_len();
    let mut lo: usize = 0;
    while lo < n && s.get_char(lo) == ' '
        invariant
            lo <= n,
            n == s@.len(),
            space_run_end(s@, 0) == space_run_end(s@, lo as int),
        decreases n - lo,
    {
        lo = lo + 1;
    }
    let mut hi: usize = n;
    while hi > lo && s.get_char(hi - 1) == ' '
        invariant
            lo <= hi <= n,
            n == s@.len(),
            space_run_start(s@, n as int) == space_run_start(s@, hi as int),
        decreases hi,
    {
        hi = hi - 1;
    }
    proof {
        lemma_space_run_end_bounds(s@, 0);
        lemma_space_run_start_bounds(s@, n as int);
        if lo < n {
            // the scans stopped on the first and after the last character
            // that is not a space, which is where the spec runs end
            assert(space_run_end(s@, lo as int) == lo);
            if hi == lo {
                // s[lo] would lie inside the trailing run of spaces,
                // though the leading scan stopped on it as a non-space
                lemma_space_run_start_bounds(s@, lo as int);
                assert(space_run_start(s@, n as int) <= lo);
                assert(s@[lo as int] == ' ');
                assert(false);
            }
            assert(space_run_start(s@, hi as int) == hi);
        } else {
            assert(forall|k: int| 0 <= k < s@.len() ==> s@[k] == ' ');
            assert(trim_spaces(s@) =~= s@.subrange(lo as int, hi as int));
        }
    }
    let piece = s.substring_char(lo, hi);
    let r = piece.to_owned();
    proof {
        assert(r@ =~= trim_spaces(s@));
    }
    r
}

/// ASCII lower-casing of one character, executable.
pub fn to_lower_char(c: char) -> (r: char)
    ensures
        r == lower_char(c),
{
    if 'A' <= c && c <= 'Z' {
        ((c as u8) + 32) as char
    } else {
        c
    }
}

/// Whether two strings are the same class-name key, that is, equal after
/// trimming spaces and folding ASCII case.
pub fn name_key_eq(a: &str, b: &str) -> (r: bool)
    ensures
        r == (name_key(a@) == name_key(b@)),
{
    let ta = trim(a);
    let tb = trim(b);
    let na = ta.as_str().unicode_len();
    let nb = tb.as_str().unicode_len();
    if na != nb {
        proof {
            assert(name_key(a@).len() != name_key(b@).len());
        }
        return false;
    }
    let mut i: usize = 0;
    while i < na
        invariant
            i <= na,
            na == ta@.len() == tb@.len(),
            ta@ == trim_spaces(a@),
            tb@ == trim_spaces(b@),
            forall|k: int| 0 <= k < i ==> lower_char(ta@[k]) == lower_char(tb@[k]),
        decreases na - i,
    {
        let ca = to_lower_char(ta.as_str().get_char(i));
        let cb = to_lower_char(tb.as_str().get_char(i));
        if ca != cb {
            proof {
                assert(name_key(a@)[i as int] != name_key(b@)[i as int]);
            }
            return false;
        }
        i = i + 1;
    }
    proof {
        assert(name_key(a@) =~= name_key(b@));
    }
    true
}

/// Character-for-character string equality, executable.
pub fn str_eq(a: &str, b: &str) -> (r: bool)
    ensures
        r == (a@ == b@),
{
    let na = a.unicode_len();
    let nb = b.unicode_len();
    if na != nb {
        return false;
    }
    let mut i: usize = 0;
    while i < na
        invariant
            i <= na,
            na == a@.len() == b@.len(),
            forall|k: int| 0 <= k < i ==> a@[k] == b@[k],
        decreases na - i,
    {
        if a.get_char(i) != b.get_char(i) {
            return false;
        }
        i = i + 1;
    }
    proof {
        assert(a@ =~= b@);
    }
    true
}

/// Code-point order on strings from position `i` on; the order in which
/// the database sorts a text column.
pub open spec fn lex_le_from(a: Seq<char>, b: Seq<char>, i: int) -> bool
    decreases a.len() - i,
{
    if i >= a.len() {
        true
    } else if i >= b.len() {
        false
    } else if a[i] == b[i] {
        lex_le_from(a, b, i + 1)
    } else {
        (a[i] as u32) < (b[i] as u32)
    }
}

/// Code-point order on whole strings.
pub open spec fn lex_le(a: Seq<char>, b: Seq<char>) -> bool {
    lex_le_from(a, b, 0)
}

pub proof fn lemma_lex_le_refl(a: Seq<char>, i: int)
    ensures
        lex_le_from(a, a, i),
    decreases a.len() - i,
{
    if i < a.len() {
        lemma_lex_le_refl(a, i + 1);
    }
}

pub proof fn lemma_lex_le_total(a: Seq<char>, b: Seq<char>, i: int)
    ensures
        lex_le_from(a, b, i) || lex_le_from(b, a, i),
    decreases a.len() - i,
{
    if i < a.len() && i < b.len() {
        if a[i] == b[i] {
            lemma_lex_le_total(a, b, i + 1);
        } else {
            // distinct characters have distinct code points
            vstd::utf8::char_u32_cast(a[i], a[i] as u32);
            vstd::utf8::char_u32_cast(b[i], b[i] as u32);
        }
    }
}

pub proof fn lemma_lex_le_trans(a: Seq<char>, b: Seq<char>, c: Seq<char>, i: int)
    requires
        lex_le_from(a, b, i),
        lex_le_from(b, c, i),
    ensures
        lex_le_from(a, c, i),
    decreases a.len() - i,
{
    if i < a.len() && i < b.len() && i < c.len() && a[i] == b[i] && b[i] == c[i] {
        lemma_lex_le_trans(a, b, c, i + 1);
    }
}

/// Code-point comparison, executable.
pub fn str_le(a: &str, b: &str) -> (r: bool)
    ensures
        r == lex_le(a@, b@),
{
    let na = a.unicode_len();
    let nb = b.unicode_len();
    let mut i: usize = 0;
    loop
        invariant
            i <= na,
            i <= nb,
            na == a@.len(),
            nb == b@.len(),
            lex_le(a@, b@) == lex_le_from(a@, b@, i as int),
        decreases na - i,
    {
        if i >= na {
            return true;
        }
        if i >= nb {
            return false;
        }
        let ca = a.get_char(i);
        let cb = b.get_char(i);
        if ca != cb {
            return (ca as u32) < (cb as u32);
        }
        i = i + 1;
    }
}

/// Whether `c` is an ASCII digit.
pub open spec fn is_digit(c: char) -> bool {
    '0' <= c && c <= '9'
}

/// Whether `s` consists of digits only.
pub open spec fn all_digits(s: Seq<char>) -> bool {
    forall|i: int| 0 <= i < s.len() ==> is_digit(#[trigger] s[i])
}

/// The number a run of digits spells.
pub open spec fn digits_val(s: Seq<char>) -> int
    decreases s.len(),
{
    if s.len() == 0 {
        0
    } else {
        digits_val(s.drop_last()) * 10 + (s.last() as u32 - '0' as u32)
    }
}

/// Whether the text `s` designates the integer key `id`: the database
/// matches a text value against an integer column by the number its
/// digits spell.
pub open spec fn spells_id(s: Seq<char>, id: int) -> bool {
    s.len() > 0 && all_digits(s) && digits_val(s) == id
}

/// Reads the nonnegative number that `s` spells, if `s` is a nonempty
/// run of ASCII digits whose value fits an `i64`.
pub fn parse_id(s: &str) -> (r: Option<i64>)
    ensures
        r is Some <==> s@.len() > 0 && all_digits(s@) && digits_val(s@) <= i64::MAX,
        r matches Some(v) ==> v == digits_val(s@),
{
    let n = s.unicode_len();
    if n == 0 {
        return None;
    }
    let mut v: i64 = 0;
    let mut i: usize = 0;
    while i < n
        invariant
            i <= n,
            n == s@.len(),
            all_digits(s@.subrange(0, i as int)),
            0 <= v == digits_val(s@.subrange(0, i as int)),
        decreases n - i,
    {
        let c = s.get_char(i);
        if !('0' <= c && c <= '9') {
            proof {
                assert(!is_digit(s@[i as int]));
            }
            return None;
        }
        let d = (c as u32 - 48) as i64;
        // v * 10 + d stays within i64 exactly when v is below
        // i64::MAX / 10, or equals it with a final digit of at most 7
        if v > 922_337_203_685_477_580i64 || (v == 922_337_203_685_477_580i64 && d > 7) {
            proof {
                lemma_digits_val_grows(s@, i as int);
            }
            return None;
        }
        proof {
            assert(s@.subrange(0, i + 1).drop_last() =~= s@.subrange(0, i as int));
            assert(s@.subrange(0, i + 1).last() == s@[i as int]);
        }
        v = v * 10 + d;
        i = i + 1;
    }
    proof {
        assert(s@.subrange(0, n as int) =~= s@);
    }
    Some(v)
}

/// Once a digit prefix spells a value past the `i64` range, every longer
/// digit run does too.
proof fn lemma_digits_val_grows(s: Seq<char>, i: int)
    requires
        0 <= i < s.len(),
        all_digits(s.subrange(0, i + 1)),
        digits_val(s.subrange(0, i)) * 10 + (s[i] as u32 - '0' as u32) > i64::MAX,
        digits_val(s.subrange(0, i)) >= 0,
    ensures
        forall|j: int| i < j <= s.len() && all_digits(s.subrange(0, j)) ==> digits_val(
            s.subrange(0, j),
        ) > i64::MAX,
{
    assert forall|j: int|
        i < j <= s.len() && all_digits(s.subrange(0, j)) implies digits_val(s.subrange(0, j))
        > i64::MAX by {
        assert(s.subrange(0, i + 1).drop_last() =~= s.subrange(0, i));
        assert(s.subrange(0, i + 1).last() == s[i]);
        assert(is_digit(s.subrange(0, i + 1)[i]));
        assert(digits_val(s.subrange(0, i + 1)) >= 0);
        lemma_digits_val_monotone(s, i + 1, j);
    }
}

/// A longer digit run spells at least as large a number.
proof fn lemma_digits_val_monotone(s: Seq<char>, i: int, j: int)
    requires
        0 <= i <= j <= s.len(),
        all_digits(s.subrange(0, j)),
        digits_val(s.subrange(0, i)) >= 0,
    ensures
        digits_val(s.subrange(0, j)) >= digits_val(s.subrange(0, i)),
        digits_val(s.subrange(0, j)) >= 0,
    decreases j - i,
{
    if i < j {
        lemma_digits_val_monotone(s, i, j - 1);
        assert(all_digits(s.subrange(0, j - 1))) by {
            assert(forall|k: int| 0 <= k < j - 1 ==> s.subrange(0, j - 1)[k] == #[trigger] s.subrange(0, j)[k]);
        }
        assert(s.subrange(0, j).drop_last() =~= s.subrange(0, j - 1));
        assert(s.subrange(0, j).last() == s[j - 1]);
        assert(is_digit(s.subrange(0, j)[j - 1]));
        assert(digits_val(s.subrange(0, j)) == digits_val(s.subrange(0, j - 1)) * 10 + (s[j - 1] as u32 - '0' as u32));
        assert(digits_val(s.subrange(0, j - 1)) * 10 >= digits_val(s.subrange(0, j - 1))) by (nonlinear_arith)
            requires digits_val(s.subrange(0, j - 1)) >= 0;
    }
}

/// The piece of `s` after its last `sep`: the whole of `s` when it has
/// none.
pub open spec fn after_last(s: Seq<char>, sep: char) -> Seq<char>
    decreases s.len(),
{
    if s.len() == 0 {
        s
    } else if s.last() == sep {
        Seq::<char>::empty()
    } else {
        after_last(s.drop_last(), sep).push(s.last())
    }
}

/// Where the scan for `after_last` stops: everything from `cut` on is
/// free of `sep`, and `cut` sits right after a `sep` (or at the start).
pub proof fn lemma_after_last_subrange(s: Seq<char>, sep: char, cut: int)
    requires
        0 <= cut <= s.len(),
        forall|k: int| cut <= k < s.len() ==> s[k] != sep,
        cut > 0 ==> s[cut - 1] == sep,
    ensures
        after_last(s, sep) =~= s.subrange(cut, s.len() as int),
    decreases s.len(),
{
    if s.len() == 0 {
    } else if s.last() == sep {
        assert(cut == s.len());
    } else {
        assert(cut < s.len());
        lemma_after_last_subrange(s.drop_last(), sep, cut);
        assert(after_last(s, sep) =~= s.drop_last().subrange(cut, s.len() - 1).push(s.last()));
    }
}

/// The file name in a path: what follows the last '/', or the whole
/// text when it has none.
pub fn file_name_of(s: &str) -> (r: String)
    ensures
        r@ == after_last(s@, '/'),
{
    let n = s.unicode_len();
    let mut cut: usize = n;
    while cut > 0 && s.get_char(cut - 1) != '/'
        invariant
            cut <= n,
            n == s@.len(),
            forall|k: int| cut <= k < n ==> s@[k] != '/',
        decreases cut,
    {
        cut = cut - 1;
    }
    proof {
        lemma_after_last_subrange(s@, '/', cut as int);
    }
    let piece = s.substring_char(cut, n);
    piece.to_owned()
}

/// Position of the last '.' in a file-name segment, or -1 when it has
/// none.
pub open spec fn dot_pos(seg: Seq<char>) -> int {
    seg.len() - 1 - after_last(seg, '.').len()
}

/// A file name carries an extension when its final segment has a '.'
/// that is not its first character.
pub open spec fn has_ext(name: Seq<char>) -> bool {
    dot_pos(after_last(name, '/')) > 0
}

/// The extension: what follows the final '.' of the final segment.
pub open spec fn ext_of(name: Seq<char>) -> Seq<char> {
    after_last(after_last(name, '/'), '.')
}

/// The stem: the final segment up to its final '.', or all of it when
/// there is no extension.
pub open spec fn stem_of(name: Seq<char>) -> Seq<char> {
    let seg = after_last(name, '/');
    if dot_pos(seg) > 0 {
        seg.subrange(0, dot_pos(seg))
    } else {
        seg
    }
}

/// Splits a file name into stem and extension; the second component is
/// meaningful only when the name has an extension.
#[verifier::loop_isolation(false)]
pub fn split_ext(name: &str) -> (r: (String, String, bool))
    ensures
        r.0@ == stem_of(name@),
        r.2 == has_ext(name@),
        r.2 ==> r.1@ == ext_of(name@),
{
    let seg = file_name_of(name);
    let seg_str = seg.as_str();
    let n = seg_str.unicode_len();
    let mut cut: usize = n;
    while cut > 0 && seg_str.get_char(cut - 1) != '.'
        invariant
            cut <= n,
            n == seg@.len(),
            forall|k: int| cut <= k < n ==> seg@[k] != '.',
        decreases cut,
    {
        cut = cut - 1;
    }
    proof {
        lemma_after_last_subrange(seg@, '.', cut as int);
        assert(after_last(seg@, '.').len() == n - cut);
    }
    if cut > 1 {
        // a dot after the first character: stem before it, extension
        // after it
        let stem = seg_str.substring_char(0, cut - 1);
        let ext = seg_str.substring_char(cut, n);
        proof {
            assert(dot_pos(seg@) == cut - 1);
            assert(stem@ =~= stem_of(name@));
            assert(ext@ =~= ext_of(name@));
        }
        (stem.to_owned(), ext.to_owned(), true)
    } else {
        proof {
            assert(dot_pos(seg@) <= 0);
        }
        (seg, String::new(), false)
    }
}

/// The decimal digit character for a value below ten.
pub open spec fn digit_char(d: int) -> char {
    if d == 0 {
        '0'
    } else if d == 1 {
        '1'
    } else if d == 2 {
        '2'
    } else if d == 3 {
        '3'
    } else if d == 4 {
        '4'
    } else if d == 5 {
        '5'
    } else if d == 6 {
        '6'
    } else if d == 7 {
        '7'
    } else if d == 8 {
        '8'
    } else {
        '9'
    }
}

/// The decimal spelling of a nonnegative number.
pub open spec fn dec_digits(n: int) -> Seq<char>
    decreases n,
{
    if n < 10 {
        seq![digit_char(n)]
    } else {
        dec_digits(n / 10).push(digit_char(n % 10))
    }
}

/// Writes a nonnegative number in decimal.
pub fn i64_dec_string(v: i64) -> (r: String)
    requires
        v >= 0,
    ensures
        r@ == dec_digits(v as int),
    decreases v,
{
    let d = v % 10;
    let ds: &str = if d == 0 {
        "0"
    } else if d == 1 {
        "1"
    } else if d == 2 {
        "2"
    } else if d == 3 {
        "3"
    } else if d == 4 {
        "4"
    } else if d == 5 {
        "5"
    } else if d == 6 {
        "6"
    } else if d == 7 {
        "7"
    } else if d == 8 {
        "8"
    } else {
        "9"
    };
    proof {
        reveal_strlit("0");
        reveal_strlit("1");
        reveal_strlit("2");
        reveal_strlit("3");
        reveal_strlit("4");
        reveal_strlit("5");
        reveal_strlit("6");
        reveal_strlit("7");
        reveal_strlit("8");
        reveal_strlit("9");
        assert(ds@ =~= seq![digit_char(d as int)]);
    }
    if v < 10 {
        ds.to_owned()
    } else {
        let rest = i64_dec_string(v / 10);
        let r = rest.concat(ds);
        proof {
            assert(r@ =~= dec_digits(v as int));
        }
        r
    }
}

} // verus!
