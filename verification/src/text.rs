//! Plain-text normalization: whitespace collapsing for extracted field
//! values, query-suffix trimming for links, and category slugging.

use vstd::prelude::*;
use vstd::string::StrSliceExecFns;

verus! {

/// The characters treated as whitespace when a value is split into words:
/// the Unicode `White_Space` set.
pub open spec fn is_space(c: char) -> bool {
    ||| c == ' '
    ||| c == '\t'
    ||| c == '\n'
    ||| c == '\u{000B}'
    ||| c == '\u{000C}'
    ||| c == '\r'
    ||| c == '\u{0085}'
    ||| c == '\u{00A0}'
    ||| c == '\u{1680}'
    ||| c == '\u{2000}'
    ||| c == '\u{2001}'
    ||| c == '\u{2002}'
    ||| c == '\u{2003}'
    ||| c == '\u{2004}'
    ||| c == '\u{2005}'
    ||| c == '\u{2006}'
    ||| c == '\u{2007}'
    ||| c == '\u{2008}'
    ||| c == '\u{2009}'
    ||| c == '\u{200A}'
    ||| c == '\u{2028}'
    ||| c == '\u{2029}'
    ||| c == '\u{202F}'
    ||| c == '\u{205F}'
    ||| c == '\u{3000}'
}

/// Whether `c` counts as whitespace; mirrors `is_space` exactly.
pub fn is_space_char(c: char) -> (b: bool)
    ensures
        b == is_space(c),
{
    c == ' ' || c == '\t' || c == '\n' || c == '\u{000B}' || c == '\u{000C}' || c == '\r'
        || c == '\u{0085}' || c == '\u{00A0}' || c == '\u{1680}' || c == '\u{2000}'
        || c == '\u{2001}' || c == '\u{2002}' || c == '\u{2003}' || c == '\u{2004}'
        || c == '\u{2005}' || c == '\u{2006}' || c == '\u{2007}' || c == '\u{2008}'
        || c == '\u{2009}' || c == '\u{200A}' || c == '\u{2028}' || c == '\u{2029}'
        || c == '\u{202F}' || c == '\u{205F}' || c == '\u{3000}'
}

/// The words of `s`: maximal runs of non-whitespace characters, scanned left
/// to right with `cur` the partial word already seen.
pub open spec fn words_acc(s: Seq<char>, cur: Seq<char>) -> Seq<Seq<char>>
    decreases s.len(),
{
    if s.len() == 0 {
        if cur.len() == 0 {
            Seq::empty()
        } else {
            seq![cur]
        }
    } else if is_space(s[0]) {
        if cur.len() == 0 {
            words_acc(s.drop_first(), Seq::empty())
        } else {
            seq![cur] + words_acc(s.drop_first(), Seq::empty())
        }
    } else {
        words_acc(s.drop_first(), cur.push(s[0]))
    }
}

/// The sequence of words of `s`, in order.
pub open spec fn words_of(s: Seq<char>) -> Seq<Seq<char>> {
    words_acc(s, Seq::empty())
}

/// The given words joined with a single space between each pair.
pub open spec fn join_sp(ws: Seq<Seq<char>>) -> Seq<char>
    decreases ws.len(),
{
    if ws.len() == 0 {
        Seq::empty()
    } else if ws.len() == 1 {
        ws[0]
    } else {
        ws[0] + seq![' '] + join_sp(ws.drop_first())
    }
}

/// `s` with one leading colon removed, if it starts with one.
pub open spec fn strip_colon(s: Seq<char>) -> Seq<char> {
    if s.len() > 0 && s[0] == ':' {
        s.drop_first()
    } else {
        s
    }
}

/// A raw field value in normalized form: one leading colon stripped, then
/// the words rejoined with single spaces.
pub open spec fn normalized_value(s: Seq<char>) -> Seq<char> {
    join_sp(words_of(strip_colon(s)))
}

/// Joining after appending one more word appends it, with a separating
/// space unless it is the first word.
proof fn lemma_join_sp_push(ws: Seq<Seq<char>>, w: Seq<char>)
    ensures
        join_sp(ws.push(w)) == if ws.len() == 0 {
            w
        } else {
            join_sp(ws) + seq![' '] + w
        },
    decreases ws.len(),
{
    if ws.len() == 0 {
        assert(ws.push(w) =~= seq![w]);
    } else {
        lemma_join_sp_push(ws.drop_first(), w);
        assert(ws.push(w).drop_first() =~= ws.drop_first().push(w));
        if ws.len() == 1 {
            assert(ws.drop_first() =~= Seq::<Seq<char>>::empty());
        }
    }
}

/// Stepping one character forward in a suffix of `s`.
proof fn lemma_skip_step(s: Seq<char>, i: int)
    requires
        0 <= i < s.len(),
    ensures
        s.skip(i).len() == s.len() - i,
        s.skip(i)[0] == s[i],
        s.skip(i).drop_first() =~= s.skip(i + 1),
{
}

/// What the output holds mid-scan: the finished words joined, plus the word
/// in progress after a separator.
spec fn collapse_state(done: Seq<Seq<char>>, cur: Seq<char>) -> Seq<char> {
    if cur.len() == 0 {
        join_sp(done)
    } else if done.len() == 0 {
        cur
    } else {
        join_sp(done) + seq![' '] + cur
    }
}

/// Collapses whitespace runs in `v[start..]` to single spaces, dropping any
/// leading or trailing whitespace.
fn collapse_chars(v: &Vec<char>, start: usize) -> (out: Vec<char>)
    requires
        start <= v.len(),
    ensures
        out@ == join_sp(words_of(v@.skip(start as int))),
{
    let ghost t = v@.skip(start as int);
    let mut out: Vec<char> = Vec::new();
    let ghost mut done: Seq<Seq<char>> = Seq::empty();
    let ghost mut cur: Seq<char> = Seq::empty();
    let mut in_word: bool = false;
    let mut i: usize = start;
    while i < v.len()
        invariant
            start <= i <= v.len(),
            t == v@.skip(start as int),
            words_of(t) == done + words_acc(v@.skip(i as int), cur),
            in_word == (cur.len() > 0),
            out@ == collapse_state(done, cur),
            (out@.len() == 0) == (done.len() == 0 && cur.len() == 0),
        decreases v.len() - i,
    {
        let c = v[i];
        proof {
            lemma_skip_step(v@, i as int);
        }
        if is_space_char(c) {
            if in_word {
                proof {
                    lemma_join_sp_push(done, cur);
                    let rest = words_acc(v@.skip(i as int + 1), Seq::empty());
                    assert(words_acc(v@.skip(i as int), cur) == seq![cur] + rest);
                    assert(done + (seq![cur] + rest) =~= done.push(cur) + rest);
                    done = done.push(cur);
                    cur = Seq::empty();
                }
                in_word = false;
            } else {
                proof {
                    assert(cur =~= Seq::<char>::empty());
                    assert(words_acc(v@.skip(i as int), cur) == words_acc(
                        v@.skip(i as int + 1),
                        cur,
                    ));
                }
            }
        } else {
            if !in_word {
                if out.len() > 0 {
                    out.push(' ');
                }
                in_word = true;
            }
            out.push(c);
            proof {
                assert(cur.push(c) =~= cur + seq![c]);
                if cur.len() == 0 && done.len() > 0 {
                    assert(out@ =~= join_sp(done) + seq![' '] + seq![c]);
                } else if cur.len() > 0 && done.len() > 0 {
                    assert(out@ =~= join_sp(done) + seq![' '] + (cur + seq![c]));
                } else {
                    assert(out@ =~= cur + seq![c]);
                }
                assert(words_acc(v@.skip(i as int), cur) == words_acc(
                    v@.skip(i as int + 1),
                    cur.push(c),
                ));
                cur = cur.push(c);
            }
        }
        i = i + 1;
    }
    proof {
        assert(v@.skip(i as int) =~= Seq::<char>::empty());
        if cur.len() == 0 {
            assert(done + words_acc(Seq::<char>::empty(), cur) =~= done);
        } else {
            lemma_join_sp_push(done, cur);
            assert(done + words_acc(Seq::<char>::empty(), cur) =~= done.push(cur));
        }
    }
    out
}

/// The characters of `s`, in order.
pub fn str_to_chars(s: &str) -> (v: Vec<char>)
    ensures
        v@ == s@,
{
    let n = s.unicode_len();
    let mut v: Vec<char> = Vec::new();
    let mut i: usize = 0;
    while i < n
        invariant
            i <= n,
            n == s@.len(),
            v@ == s@.take(i as int),
        decreases n - i,
    {
        let c = s.get_char(i);
        v.push(c);
        proof {
            assert(v@ =~= s@.take(i as int + 1));
        }
        i = i + 1;
    }
    proof {
        assert(s@.take(n as int) =~= s@);
    }
    v
}

/// Relies on `String: FromIterator<char>` from std, through
/// `Iterator::collect`: per its documentation the collected string holds
/// exactly the given characters, in order.
#[verifier::external_body]
fn chars_to_string(v: &Vec<char>) -> (r: String)
    ensures
        r@ == v@,
{
    v.iter().collect()
}

/// Whether two string slices hold the same characters.
pub fn str_eq(a: &str, b: &str) -> (r: bool)
    ensures
        r == (a@ == b@),
{
    let n = a.unicode_len();
    let m = b.unicode_len();
    if n != m {
        return false;
    }
    let mut i: usize = 0;
    while i < n
        invariant
            i <= n,
            n == a@.len(),
            n == b@.len(),
            forall|k: int| 0 <= k < i ==> a@[k] == b@[k],
        decreases n - i,
    {
        if a.get_char(i) != b.get_char(i) {
            return false;
        }
        i = i + 1;
    }
    proof {
        assert(a@ =~= b@);
    }
    true
}

/// One raw field value, normalized: one leading colon stripped, then all
/// whitespace runs collapsed to single spaces.
pub fn normalize_value(raw: &str) -> (r: String)
    ensures
        r@ == normalized_value(raw@),
{
    let v = str_to_chars(raw);
    let mut start: usize = 0;
    if v.len() > 0 {
        let c = v[0];
        if c == ':' {
            start = 1;
        }
    }
    proof {
        assert(v@.skip(start as int) =~= strip_colon(raw@));
    }
    let out = collapse_chars(&v, start);
    chars_to_string(&out)
}

/// The index of the first `?` in `s`, or the length of `s` if there is none.
pub open spec fn qpos(s: Seq<char>) -> int
    decreases s.len(),
{
    if s.len() == 0 {
        0
    } else if s[0] == '?' {
        0
    } else {
        1 + qpos(s.drop_first())
    }
}

/// The part of a link before its query-string suffix: everything up to the
/// first `?`, or all of it if there is none.
pub open spec fn link_prefix(s: Seq<char>) -> Seq<char> {
    s.take(qpos(s))
}

/// `qpos` really is the position of the first `?`.
proof fn lemma_qpos(s: Seq<char>)
    ensures
        0 <= qpos(s) <= s.len(),
        forall|k: int| 0 <= k < qpos(s) ==> s[k] != '?',
        qpos(s) < s.len() ==> s[qpos(s)] == '?',
    decreases s.len(),
{
    if s.len() > 0 && s[0] != '?' {
        lemma_qpos(s.drop_first());
        assert forall|k: int| 0 <= k < qpos(s) implies s[k] != '?' by {
            if k > 0 {
                assert(s.drop_first()[k - 1] != '?');
            }
        }
    }
}

/// `link` cut off before its first `?`, or unchanged if it has none.
pub fn trim_link(link: &str) -> (r: String)
    ensures
        r@ == link_prefix(link@),
{
    let n = link.unicode_len();
    let mut qi: usize = n;
    let mut i: usize = 0;
    while i < n
        invariant
            i <= n,
            qi <= n,
            n == link@.len(),
            qi == n ==> forall|k: int| 0 <= k < i ==> link@[k] != '?',
            qi < n ==> qi < i && link@[qi as int] == '?' && forall|k: int|
                0 <= k < qi ==> link@[k] != '?',
        decreases n - i,
    {
        if qi == n && link.get_char(i) == '?' {
            qi = i;
        }
        i = i + 1;
    }
    proof {
        lemma_qpos(link@);
        assert(qpos(link@) == qi);
    }
    link.substring_char(0, qi).to_owned()
}

/// What `str::to_lowercase` returns for the given characters.
pub uninterp spec fn lower_of(s: Seq<char>) -> Seq<char>;

/// Relies on `str::to_lowercase` from std: its documentation defines the
/// result by the Unicode lowercase mapping of the input characters alone,
/// and maps every character to at least one, so the result is empty exactly
/// when the input is.
#[verifier::external_body]
fn to_lower(s: &str) -> (r: String)
    ensures
        r@ == lower_of(s@),
        (r@.len() == 0) == (s@.len() == 0),
{
    s.to_lowercase()
}

/// `s` with every plain space replaced by an underscore.
pub open spec fn underscored(s: Seq<char>) -> Seq<char> {
    s.map_values(|c: char| if c == ' ' { '_' } else { c })
}

/// The slug of a category value: its lowercase form with spaces turned into
/// underscores.
pub open spec fn slug_of(s: Seq<char>) -> Seq<char> {
    underscored(lower_of(s))
}

/// The category slug of `value`; empty exactly when `value` is empty.
pub fn slug_category(value: &str) -> (r: String)
    ensures
        r@ == slug_of(value@),
        (r@.len() == 0) == (value@.len() == 0),
{
    let low = to_lower(value);
    let v = str_to_chars(low.as_str());
    let mut out: Vec<char> = Vec::new();
    let mut i: usize = 0;
    while i < v.len()
        invariant
            i <= v.len(),
            v@ == lower_of(value@),
            out@ == underscored(v@.take(i as int)),
        decreases v.len() - i,
    {
        let c = v[i];
        if c == ' ' {
            out.push('_');
        } else {
            out.push(c);
        }
        proof {
            assert(out@ =~= underscored(v@.take(i as int + 1)));
        }
        i = i + 1;
    }
    proof {
        assert(v@.take(v.len() as int) =~= v@);
        assert(underscored(lower_of(value@)).len() == lower_of(value@).len());
    }
    chars_to_string(&out)
}

} // verus!
