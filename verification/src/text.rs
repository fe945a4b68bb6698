//! Text helpers shared by the formatter: string comparison, ASCII upper
//! casing and the slash normalisation applied to backlinks.

use vstd::prelude::*;
use vstd::std_specs::iter::IteratorSpec;

verus! {

/// `String::push` of the standard library. Trusted: the call appends `ch`
/// as the last character of the string and leaves the earlier ones alone.
pub assume_specification[ String::push ](s: &mut String, ch: char)
    ensures
        final(s)@ == old(s)@.push(ch),
;

/// Compares two string slices character by character.
pub fn str_eq(a: &str, b: &str) -> (same: bool)
    ensures
        same == (a@ == b@),
{
    let mut left = a.chars();
    let mut right = b.chars();
    let ghost mut n: int = 0;
    loop
        invariant
            0 <= n <= a@.len(),
            n <= b@.len(),
            left.remaining() == a@.skip(n),
            right.remaining() == b@.skip(n),
            a@.take(n) == b@.take(n),
        decreases a@.len() - n,
    {
        let x = left.next();
        let y = right.next();
        match (x, y) {
            (Some(cx), Some(cy)) => {
                if cx != cy {
                    assert(a@[n] != b@[n]);
                    return false;
                }
                proof {
                    assert(a@.take(n + 1) =~= a@.take(n).push(a@[n]));
                    assert(b@.take(n + 1) =~= b@.take(n).push(b@[n]));
                    assert(a@.skip(n).drop_first() =~= a@.skip(n + 1));
                    assert(b@.skip(n).drop_first() =~= b@.skip(n + 1));
                    n = n + 1;
                }
            },
            (None, None) => {
                assert(a@.take(n) =~= a@);
                assert(b@.take(n) =~= b@);
                return true;
            },
            _ => {
                assert(a@.len() != b@.len());
                return false;
            },
        }
    }
}

/// The characters of `s`, in order.
pub fn chars_of(s: &str) -> (chars: Vec<char>)
    ensures
        chars@ == s@,
{
    let mut chars: Vec<char> = Vec::new();
    for c in it: s.chars()
        invariant
            it.seq() == s@,
            chars@ == s@.take(it.index()),
    {
        assert(s@.take(it.index() + 1) =~= s@.take(it.index()).push(c));
        chars.push(c);
    }
    assert(s@.take(s@.len() as int) =~= s@);
    chars
}

/// The upper case form of an ASCII letter; any other character is itself.
pub open spec fn ascii_upper_char(c: char) -> char {
    if 'a' <= c && c <= 'z' {
        ((c as u8) - 32) as char
    } else {
        c
    }
}

/// `s` with each of the letters `a` to `z` replaced by `A` to `Z`. Nothing
/// outside ASCII changes, so the result does not depend on a locale.
pub open spec fn ascii_upper(s: Seq<char>) -> Seq<char> {
    Seq::new(s.len(), |i: int| ascii_upper_char(s[i]))
}

/// The upper case form of `c` where `c` is one of `a` to `z`, else `c`.
pub fn to_ascii_upper_char(c: char) -> (upper: char)
    ensures
        upper == ascii_upper_char(c),
{
    if c >= 'a' && c <= 'z' {
        ((c as u8) - 32) as char
    } else {
        c
    }
}

/// `s` in ASCII upper case: what the title of an embed is made with.
pub fn to_ascii_uppercase(s: &str) -> (upper: String)
    ensures
        upper@ == ascii_upper(s@),
{
    let mut upper = String::new();
    for c in it: s.chars()
        invariant
            it.seq() == s@,
            upper@ == ascii_upper(s@.take(it.index())),
    {
        assert(ascii_upper(s@.take(it.index() + 1)) =~= ascii_upper(s@.take(it.index())).push(
            ascii_upper_char(c),
        ));
        upper.push(to_ascii_upper_char(c));
    }
    assert(s@.take(s@.len() as int) =~= s@);
    upper
}

/// Three slashes stand in `s` from position `i` on.
pub open spec fn triple_slash_at(s: Seq<char>, i: int) -> bool {
    0 <= i && i + 3 <= s.len() && s[i] == '/' && s[i + 1] == '/' && s[i + 2] == '/'
}

/// Four slashes stand in `s` from position `i` on.
pub open spec fn quad_slash_at(s: Seq<char>, i: int) -> bool {
    triple_slash_at(s, i) && i + 4 <= s.len() && s[i + 3] == '/'
}

/// `s` holds `///` somewhere.
pub open spec fn has_triple_slash(s: Seq<char>) -> bool {
    exists|i: int| triple_slash_at(s, i)
}

/// `s` holds `////` somewhere.
pub open spec fn has_quad_slash(s: Seq<char>) -> bool {
    exists|i: int| quad_slash_at(s, i)
}

/// `s` with every occurrence of `///` replaced by `//`. Occurrences are
/// found from the left and do not overlap: after a replacement the search
/// goes on behind the three slashes that were replaced.
pub open spec fn collapse_slashes(s: Seq<char>) -> Seq<char>
    decreases s.len(),
{
    if s.len() == 0 {
        s
    } else if triple_slash_at(s, 0) {
        seq!['/', '/'] + collapse_slashes(s.skip(3))
    } else {
        seq![s[0]] + collapse_slashes(s.skip(1))
    }
}

/// Normalises a backlink: every `///` in it becomes `//`.
pub fn normalize_url(url: &str) -> (normal: String)
    ensures
        normal@ == collapse_slashes(url@),
{
    let chars = chars_of(url);
    let n = chars.len();
    let mut normal = String::new();
    let mut i: usize = 0;
    assert(chars@.skip(0) =~= chars@);
    while i < n
        invariant
            i <= n,
            n == chars.len(),
            collapse_slashes(chars@) == normal@ + collapse_slashes(chars@.skip(i as int)),
        decreases n - i,
    {
        let ghost rest = chars@.skip(i as int);
        let ghost before = normal@;
        if n - i >= 3 && chars[i] == '/' && chars[i + 1] == '/' && chars[i + 2] == '/' {
            normal.push('/');
            normal.push('/');
            proof {
                assert(triple_slash_at(rest, 0));
                assert(rest.skip(3) =~= chars@.skip(i + 3));
                assert(before + (seq!['/', '/'] + collapse_slashes(rest.skip(3))) =~= normal@
                    + collapse_slashes(rest.skip(3)));
            }
            i += 3;
        } else {
            normal.push(chars[i]);
            proof {
                assert(!triple_slash_at(rest, 0));
                assert(rest.skip(1) =~= chars@.skip(i + 1));
                assert(before + (seq![rest[0]] + collapse_slashes(rest.skip(1))) =~= normal@
                    + collapse_slashes(rest.skip(1)));
            }
            i += 1;
        }
    }
    assert(normal@ + collapse_slashes(chars@.skip(n as int)) =~= normal@);
    normal
}

/// A text without `///` is left as it is.
pub proof fn lemma_collapse_fixes_plain(s: Seq<char>)
    requires
        !has_triple_slash(s),
    ensures
        collapse_slashes(s) == s,
    decreases s.len(),
{
    if s.len() > 0 {
        assert(!triple_slash_at(s, 0));
        let rest = s.skip(1);
        assert forall|i: int| !triple_slash_at(rest, i) by {
            if triple_slash_at(rest, i) {
                assert(triple_slash_at(s, i + 1));
            }
        }
        lemma_collapse_fixes_plain(rest);
        assert(seq![s[0]] + rest =~= s);
    }
}

/// The normal form begins with a slash exactly when the text does.
proof fn lemma_collapse_head(s: Seq<char>)
    ensures
        (collapse_slashes(s).len() > 0 && collapse_slashes(s)[0] == '/') <==> (s.len() > 0 && s[0]
            == '/'),
        collapse_slashes(s).len() == 0 <==> s.len() == 0,
{
}

/// Of a text without `////` the normal form holds no `///`.
proof fn lemma_collapse_leaves_no_triple(s: Seq<char>)
    requires
        !has_quad_slash(s),
    ensures
        !has_triple_slash(collapse_slashes(s)),
        collapse_slashes(s).len() >= 2 && collapse_slashes(s)[0] == '/' && collapse_slashes(s)[1]
            == '/' ==> s.len() >= 2 && s[0] == '/' && s[1] == '/',
    decreases s.len(),
{
    let out = collapse_slashes(s);
    if s.len() == 0 {
        assert forall|i: int| !triple_slash_at(out, i) by {}
    } else if triple_slash_at(s, 0) {
        let rest = s.skip(3);
        let tail = collapse_slashes(rest);
        assert forall|i: int| !quad_slash_at(rest, i) by {
            if quad_slash_at(rest, i) {
                assert(quad_slash_at(s, i + 3));
            }
        }
        lemma_collapse_leaves_no_triple(rest);
        lemma_collapse_head(rest);
        assert(!quad_slash_at(s, 0));
        assert(rest.len() > 0 ==> rest[0] == s[3]);
        assert(out =~= seq!['/', '/'] + tail);
        assert forall|i: int| !triple_slash_at(out, i) by {
            if triple_slash_at(out, i) {
                if i >= 2 {
                    assert(triple_slash_at(tail, i - 2));
                } else {
                    assert(out[2] == tail[0]);
                }
            }
        }
    } else {
        let rest = s.skip(1);
        let tail = collapse_slashes(rest);
        assert forall|i: int| !quad_slash_at(rest, i) by {
            if quad_slash_at(rest, i) {
                assert(quad_slash_at(s, i + 1));
            }
        }
        lemma_collapse_leaves_no_triple(rest);
        lemma_collapse_head(rest);
        assert(out =~= seq![s[0]] + tail);
        assert forall|i: int| !triple_slash_at(out, i) by {
            if triple_slash_at(out, i) {
                if i >= 1 {
                    assert(triple_slash_at(tail, i - 1));
                } else {
                    assert(out[1] == tail[0] && out[2] == tail[1]);
                    assert(rest[0] == s[1] && rest[1] == s[2]);
                }
            }
        }
        if out.len() >= 2 && out[0] == '/' && out[1] == '/' {
            assert(out[1] == tail[0]);
            assert(rest[0] == s[1]);
        }
    }
}

/// Normalising never makes a text longer, and makes it shorter if it holds
/// `///`.
proof fn lemma_collapse_len(s: Seq<char>)
    ensures
        collapse_slashes(s).len() <= s.len(),
        has_triple_slash(s) ==> collapse_slashes(s).len() < s.len(),
    decreases s.len(),
{
    if s.len() == 0 {
    } else if triple_slash_at(s, 0) {
        lemma_collapse_len(s.skip(3));
    } else {
        let rest = s.skip(1);
        lemma_collapse_len(rest);
        if has_triple_slash(s) {
            let i = choose|i: int| triple_slash_at(s, i);
            assert(triple_slash_at(rest, i - 1));
        }
    }
}

/// Of a text with `////` the normal form still holds `///`.
proof fn lemma_collapse_keeps_triple(s: Seq<char>)
    requires
        has_quad_slash(s),
    ensures
        has_triple_slash(collapse_slashes(s)),
    decreases s.len(),
{
    let out = collapse_slashes(s);
    let at = choose|i: int| quad_slash_at(s, i);
    if triple_slash_at(s, 0) {
        let rest = s.skip(3);
        let tail = collapse_slashes(rest);
        assert(out =~= seq!['/', '/'] + tail);
        if at >= 3 {
            assert(quad_slash_at(rest, at - 3));
            lemma_collapse_keeps_triple(rest);
            let j = choose|j: int| triple_slash_at(tail, j);
            assert(triple_slash_at(out, j + 2));
        } else {
            assert(s[3] == '/');
            assert(rest[0] == s[3]);
            lemma_collapse_head(rest);
            assert(out[2] == tail[0]);
            assert(triple_slash_at(out, 0));
        }
    } else {
        let rest = s.skip(1);
        let tail = collapse_slashes(rest);
        assert(out =~= seq![s[0]] + tail);
        assert(at >= 1);
        assert(quad_slash_at(rest, at - 1));
        lemma_collapse_keeps_triple(rest);
        let j = choose|j: int| triple_slash_at(tail, j);
        assert(triple_slash_at(out, j + 1));
    }
}

/// Normalising a backlink twice gives what normalising it once gives,
/// provided the backlink holds no run of four slashes.
pub proof fn lemma_normalize_idempotent(url: Seq<char>)
    requires
        !has_quad_slash(url),
    ensures
        collapse_slashes(collapse_slashes(url)) == collapse_slashes(url),
{
    lemma_collapse_leaves_no_triple(url);
    lemma_collapse_fixes_plain(collapse_slashes(url));
}

/// A run of four slashes is the one obstacle: with one in the backlink the
/// second normalisation shortens the result of the first.
pub proof fn lemma_normalize_shrinks_again(url: Seq<char>)
    requires
        has_quad_slash(url),
    ensures
        collapse_slashes(collapse_slashes(url)).len() < collapse_slashes(url).len(),
        collapse_slashes(collapse_slashes(url)) != collapse_slashes(url),
{
    lemma_collapse_keeps_triple(url);
    lemma_collapse_len(collapse_slashes(url));
}

} // verus!
