//! Minification of script and style sheet text.
use vstd::prelude::*;
use crate::text::{chars_of, replace_all, replace_str, split_on, string_of};

verus! {

/// The characters with the Unicode `White_Space` property, which is what
/// `char::is_whitespace` tests.
pub open spec fn is_whitespace(c: char) -> bool {
    ||| '\t' <= c <= '\r'
    ||| c == ' '
    ||| c == '\u{85}'
    ||| c == '\u{A0}'
    ||| c == '\u{1680}'
    ||| '\u{2000}' <= c <= '\u{200A}'
    ||| c == '\u{2028}'
    ||| c == '\u{2029}'
    ||| c == '\u{202F}'
    ||| c == '\u{205F}'
    ||| c == '\u{3000}'
}

pub open spec fn trim_start(s: Seq<char>) -> Seq<char>
    decreases s.len(),
{
    if s.len() > 0 && is_whitespace(s[0]) {
        trim_start(s.skip(1))
    } else {
        s
    }
}

pub open spec fn trim_end(s: Seq<char>) -> Seq<char>
    decreases s.len(),
{
    if s.len() > 0 && is_whitespace(s.last()) {
        trim_end(s.drop_last())
    } else {
        s
    }
}

/// `s` without leading and trailing whitespace, as `str::trim` gives it.
pub open spec fn trim(s: Seq<char>) -> Seq<char> {
    trim_end(trim_start(s))
}

/// A trimmed line is kept when it is not empty and does not open a comment.
pub open spec fn kept_line(t: Seq<char>) -> bool {
    t.len() > 0 && !(t.len() >= 2 && t[0] == '/' && t[1] == '*')
}

pub open spec fn kept_piece(line: Seq<char>) -> Seq<char> {
    if kept_line(trim(line)) {
        trim(line)
    } else {
        Seq::empty()
    }
}

/// The kept lines, trimmed and joined without separator.
pub open spec fn joined_lines(lines: Seq<Seq<char>>) -> Seq<char>
    decreases lines.len(),
{
    if lines.len() == 0 {
        Seq::empty()
    } else {
        joined_lines(lines.drop_last()) + kept_piece(lines.last())
    }
}

/// Minified CSS: lines trimmed, empty lines and lines opening a comment
/// dropped, the rest joined, then the spaces around punctuation squeezed.
/// (Splitting at `\n` and trimming gives the same kept lines as
/// `str::lines`, whose `\r` removal trimming subsumes.)
pub open spec fn minified_css(css: Seq<char>) -> Seq<char> {
    let j = joined_lines(split_on(css, '\n'));
    let r1 = replace_all(j, ": "@, ":"@);
    let r2 = replace_all(r1, " {"@, "{"@);
    let r3 = replace_all(r2, "{ "@, "{"@);
    let r4 = replace_all(r3, " }"@, "}"@);
    let r5 = replace_all(r4, ", "@, ","@);
    let r6 = replace_all(r5, "; "@, ";"@);
    replace_all(r6, "  "@, " "@)
}

fn is_whitespace_char(c: char) -> (r: bool)
    ensures
        r == is_whitespace(c),
{
    ('\t' <= c && c <= '\r') || c == ' ' || c == '\u{85}' || c == '\u{A0}' || c == '\u{1680}' || (
    '\u{2000}' <= c && c <= '\u{200A}') || c == '\u{2028}' || c == '\u{2029}' || c == '\u{202F}'
        || c == '\u{205F}' || c == '\u{3000}'
}

/// Appends the trimmed `line` to `out` when it is kept.
fn push_kept(out: &mut Vec<char>, line: &Vec<char>)
    ensures
        final(out)@ == old(out)@ + kept_piece(line@),
{
    let n = line.len();
    let mut a: usize = 0;
    assert(line@.skip(0) == line@);
    while a < n && is_whitespace_char(line[a])
        invariant
            a <= n,
            n == line.len(),
            trim_start(line@) == trim_start(line@.skip(a as int)),
        decreases n - a,
    {
        assert(line@.skip(a as int).skip(1) == line@.skip(a + 1));
        a = a + 1;
    }
    let ghost t = line@.skip(a as int);
    assert(trim_start(line@) == t);
    let mut b: usize = n;
    assert(t.take(t.len() as int) == t);
    while b > a && is_whitespace_char(line[b - 1])
        invariant
            a <= b <= n,
            n == line.len(),
            t == line@.skip(a as int),
            trim_end(t) == trim_end(t.take(b - a)),
        decreases b,
    {
        assert(t.take(b - a).drop_last() == t.take(b - a - 1));
        assert(t.take(b - a).last() == line@[b - 1]);
        b = b - 1;
    }
    let ghost piece = t.take(b - a);
    assert(trim(line@) == piece);
    if b > a && !(b - a >= 2 && line[a] == '/' && line[a + 1] == '*') {
        let mut k: usize = a;
        let ghost start = out@;
        while k < b
            invariant
                a <= k <= b,
                b <= n,
                n == line.len(),
                piece == line@.subrange(a as int, b as int),
                out@ == start + line@.subrange(a as int, k as int),
            decreases b - k,
        {
            out.push(line[k]);
            proof {
                assert(line@.subrange(a as int, k + 1) == line@.subrange(a as int, k as int).push(
                    line@[k as int],
                ));
            }
            k = k + 1;
        }
    } else {
        assert(out@ == out@ + Seq::<char>::empty());
    }
}

/// Script minification is the identity.
pub fn minify_js(js: &str) -> (r: String)
    ensures
        r@ == js@,
{
    js.to_owned()
}

/// Minifies a style sheet (see `minified_css`).
pub fn minify_css(css: &str) -> (r: String)
    ensures
        r@ == minified_css(css@),
{
    let cs = chars_of(css);
    let mut out: Vec<char> = Vec::new();
    let mut cur: Vec<char> = Vec::new();
    let mut i: usize = 0;
    while i < cs.len()
        invariant
            i <= cs.len(),
            cs@ == css@,
            joined_lines(split_on(cs@.take(i as int), '\n').drop_last()) == out@,
            split_on(cs@.take(i as int), '\n').last() == cur@,
            split_on(cs@.take(i as int), '\n').len() >= 1,
        decreases cs.len() - i,
    {
        let c = cs[i];
        let ghost lines = split_on(cs@.take(i as int), '\n');
        proof {
            let p = cs@.take(i + 1);
            assert(p.drop_last() == cs@.take(i as int));
            assert(p.last() == c);
        }
        if c == '\n' {
            proof {
                assert(lines.drop_last().push(lines.last()) == lines);
            }
            push_kept(&mut out, &cur);
            cur = Vec::new();
            proof {
                let nl = split_on(cs@.take(i + 1), '\n');
                assert(nl == lines.push(Seq::<char>::empty()));
                assert(nl.drop_last() == lines);
            }
        } else {
            cur.push(c);
            proof {
                let nl = split_on(cs@.take(i + 1), '\n');
                assert(nl.drop_last() == lines.drop_last());
            }
        }
        i = i + 1;
    }
    proof {
        let lines = split_on(cs@.take(i as int), '\n');
        assert(lines.drop_last().push(lines.last()) == lines);
        assert(cs@.take(i as int) == css@);
    }
    push_kept(&mut out, &cur);
    let joined = string_of(&out);
    proof {
        reveal_strlit(": ");
        reveal_strlit(" {");
        reveal_strlit("{ ");
        reveal_strlit(" }");
        reveal_strlit(", ");
        reveal_strlit("; ");
        reveal_strlit("  ");
    }
    let r1 = replace_str(joined.as_str(), ": ", ":");
    let r2 = replace_str(r1.as_str(), " {", "{");
    let r3 = replace_str(r2.as_str(), "{ ", "{");
    let r4 = replace_str(r3.as_str(), " }", "}");
    let r5 = replace_str(r4.as_str(), ", ", ",");
    let r6 = replace_str(r5.as_str(), "; ", ";");
    replace_str(r6.as_str(), "  ", " ")
}

} // verus!
