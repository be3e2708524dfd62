use vstd::prelude::*;

verus! {

/// Relies on `String::push`: appends one character.
#[verifier::external_body]
pub(crate) fn push_char(s: &mut String, c: char)
    ensures
        final(s)@ == old(s)@.push(c),
{
    s.push(c)
}

/// The characters of `s`, in order.
pub fn chars_of(s: &str) -> (r: Vec<char>)
    ensures
        r@ == s@,
{
    let mut v: Vec<char> = Vec::new();
    for c in it: s.chars()
        invariant
            v@ == it.seq().take(it.index()),
    {
        v.push(c);
    }
    v
}

/// A `String` holding the characters of `v`.
pub fn string_of(v: &Vec<char>) -> (r: String)
    ensures
        r@ == v@,
{
    let mut s = String::new();
    for i in 0..v.len()
        invariant
            s@ == v@.take(i as int),
    {
        push_char(&mut s, v[i]);
        assert(v@.take(i + 1) =~= v@.take(i as int).push(v@[i as int]));
    }
    assert(v@.take(v.len() as int) =~= v@);
    s
}


/// Every non-overlapping occurrence of `pat` in `s`, found from left to
/// right, replaced by `rep`.
pub open spec fn replace_all(s: Seq<char>, pat: Seq<char>, rep: Seq<char>) -> Seq<char>
    decreases s.len(),
{
    if s.len() == 0 || pat.len() == 0 {
        s
    } else if pat.len() <= s.len() && s.subrange(0, pat.len() as int) == pat {
        rep + replace_all(s.subrange(pat.len() as int, s.len() as int), pat, rep)
    } else {
        seq![s[0]] + replace_all(s.subrange(1, s.len() as int), pat, rep)
    }
}

/// Whether `pat` occurs in `s` starting at position `i`.
pub open spec fn occurs_at(s: Seq<char>, pat: Seq<char>, i: int) -> bool {
    0 <= i && i + pat.len() <= s.len() && s.subrange(i, i + pat.len()) == pat
}

fn matches_at(s: &Vec<char>, i: usize, pat: &Vec<char>) -> (r: bool)
    requires
        i <= s.len(),
    ensures
        r == occurs_at(s@, pat@, i as int),
{
    if pat.len() > s.len() - i {
        return false;
    }
    let mut k: usize = 0;
    while k < pat.len()
        invariant
            i + pat.len() <= s.len(),
            k <= pat.len(),
            forall|j: int| 0 <= j < k ==> s@[i + j] == pat@[j],
        decreases pat.len() - k,
    {
        if s[i + k] != pat[k] {
            assert(s@.subrange(i as int, i + pat.len())[k as int] != pat@[k as int]);
            return false;
        }
        k = k + 1;
    }
    assert(s@.subrange(i as int, i + pat.len()) =~= pat@);
    true
}

/// Replaces, from left to right, each non-overlapping occurrence of `pat`
/// in `s` by `rep`.
pub fn replace_seq(s: &Vec<char>, pat: &Vec<char>, rep: &Vec<char>) -> (r: Vec<char>)
    ensures
        r@ == replace_all(s@, pat@, rep@),
{
    if pat.len() == 0 {
        return s.clone();
    }
    let mut out: Vec<char> = Vec::new();
    let mut i: usize = 0;
    assert(s@.subrange(0, s.len() as int) =~= s@);
    assert(out@ + replace_all(s@, pat@, rep@) =~= replace_all(s@, pat@, rep@));
    while i < s.len()
        invariant
            i <= s.len(),
            pat.len() > 0,
            replace_all(s@, pat@, rep@) == out@ + replace_all(
                s@.subrange(i as int, s.len() as int),
                pat@,
                rep@,
            ),
        decreases s.len() - i,
    {
        let ghost rest = s@.subrange(i as int, s.len() as int);
        if matches_at(s, i, pat) {
            assert(rest.subrange(0, pat.len() as int) =~= s@.subrange(i as int, i + pat.len()));
            assert(rest.subrange(pat.len() as int, rest.len() as int) =~= s@.subrange(
                i + pat.len(),
                s.len() as int,
            ));
            let mut k: usize = 0;
            let ghost before = out@;
            while k < rep.len()
                invariant
                    k <= rep.len(),
                    out@ == before + rep@.take(k as int),
                decreases rep.len() - k,
            {
                out.push(rep[k]);
                assert(rep@.take(k + 1) =~= rep@.take(k as int).push(rep@[k as int]));
                k = k + 1;
            }
            assert(rep@.take(rep.len() as int) =~= rep@);
            assert(out@ + replace_all(s@.subrange(i + pat.len(), s.len() as int), pat@, rep@)
                =~= before + (rep@ + replace_all(s@.subrange(i + pat.len(), s.len() as int), pat@, rep@)));
            i = i + pat.len();
        } else {
            assert(pat@.len() <= rest.len() ==> rest.subrange(0, pat.len() as int)
                =~= s@.subrange(i as int, i + pat.len()));
            assert(rest.subrange(1, rest.len() as int) =~= s@.subrange(i + 1, s.len() as int));
            let ghost before = out@;
            out.push(s[i]);
            assert(out@ + replace_all(s@.subrange(i + 1, s.len() as int), pat@, rep@)
                =~= before + (seq![rest[0]] + replace_all(s@.subrange(i + 1, s.len() as int), pat@, rep@)));
            i = i + 1;
        }
    }
    assert(out@ + replace_all(s@.subrange(i as int, s.len() as int), pat@, rep@) =~= out@);
    out
}


/// `i` is the position of the first `c` in `s`.
pub open spec fn is_first(s: Seq<char>, c: char, i: int) -> bool {
    0 <= i < s.len() && s[i] == c && forall|j: int| 0 <= j < i ==> s[j] != c
}

/// The position of the first `c` in `s`, if there is one.
pub open spec fn first_index(s: Seq<char>, c: char) -> Option<int> {
    if exists|i: int| is_first(s, c, i) {
        Some(choose|i: int| is_first(s, c, i))
    } else {
        None
    }
}

/// Removes the span from the first `(` through the first `)`, both included,
/// when both occur and the `(` comes first; otherwise `s` is kept as it is.
pub open spec fn strip_first_paren(s: Seq<char>) -> Seq<char> {
    match (first_index(s, '('), first_index(s, ')')) {
        (Some(a), Some(b)) => if a < b {
            s.subrange(0, a) + s.subrange(b + 1, s.len() as int)
        } else {
            s
        },
        _ => s,
    }
}

fn find_char(s: &Vec<char>, c: char) -> (r: Option<usize>)
    ensures
        r matches Some(i) ==> first_index(s@, c) == Some(i as int),
        r is None ==> first_index(s@, c) is None,
{
    let mut i: usize = 0;
    while i < s.len()
        invariant
            i <= s.len(),
            forall|j: int| 0 <= j < i ==> s@[j] != c,
        decreases s.len() - i,
    {
        if s[i] == c {
            assert(is_first(s@, c, i as int));
            let ghost k = choose|k: int| is_first(s@, c, k);
            assert(k == i) by {
                if k < i {
                } else if k > i {
                    assert(s@[i as int] != c);
                }
            }
            return Some(i);
        }
        i = i + 1;
    }
    assert(!exists|k: int| is_first(s@, c, k));
    None
}

/// Removes the first parenthesised span, as [`strip_first_paren`] says.
pub fn strip_paren(s: &Vec<char>) -> (r: Vec<char>)
    ensures
        r@ == strip_first_paren(s@),
{
    match (find_char(s, '('), find_char(s, ')')) {
        (Some(a), Some(b)) => {
            if a < b {
                let mut out: Vec<char> = Vec::new();
                let mut i: usize = 0;
                while i < s.len()
                    invariant
                        a < b < s.len(),
                        i <= s.len(),
                        out@ == (if i <= a {
                            s@.subrange(0, i as int)
                        } else if i <= b + 1 {
                            s@.subrange(0, a as int)
                        } else {
                            s@.subrange(0, a as int) + s@.subrange(b + 1, i as int)
                        }),
                    decreases s.len() - i,
                {
                    if i < a || i > b {
                        out.push(s[i]);
                    }
                    proof {
                        if i < a {
                            assert(s@.subrange(0, i + 1) =~= s@.subrange(0, i as int).push(s@[i as int]));
                        } else if i > b {
                            assert(s@.subrange(b + 1, i + 1) =~= s@.subrange(b + 1, i as int).push(s@[i as int]));
                            assert(s@.subrange(0, a as int) + s@.subrange(b + 1, i + 1) =~= (s@.subrange(0, a as int) + s@.subrange(b + 1, i as int)).push(s@[i as int]));
                        } else if i == b {
                            assert(s@.subrange(b + 1, b + 1) =~= Seq::<char>::empty());
                            assert(s@.subrange(0, a as int) + s@.subrange(b + 1, b + 1) =~= s@.subrange(0, a as int));
                        }
                    }
                    i = i + 1;
                }
                out
            } else {
                s.clone()
            }
        },
        _ => s.clone(),
    }
}

/// Whether `c` is white space in Unicode's sense, which is also what
/// `char::is_whitespace` and `str::trim` go by.
pub open spec fn is_white(c: char) -> bool {
    ('\u{9}' <= c && c <= '\u{d}') || c == ' ' || c == '\u{85}' || c == '\u{a0}'
        || c == '\u{1680}' || ('\u{2000}' <= c && c <= '\u{200a}') || c == '\u{2028}'
        || c == '\u{2029}' || c == '\u{202f}' || c == '\u{205f}' || c == '\u{3000}'
}

/// Whether `c` is white space.
pub fn white(c: char) -> (r: bool)
    ensures
        r == is_white(c),
{
    ('\u{9}' <= c && c <= '\u{d}') || c == ' ' || c == '\u{85}' || c == '\u{a0}'
        || c == '\u{1680}' || ('\u{2000}' <= c && c <= '\u{200a}') || c == '\u{2028}'
        || c == '\u{2029}' || c == '\u{202f}' || c == '\u{205f}' || c == '\u{3000}'
}

/// `s` without its leading and trailing white space.
pub open spec fn trim(s: Seq<char>) -> Seq<char>
    decreases s.len(),
{
    if s.len() > 0 && is_white(s[0]) {
        trim(s.drop_first())
    } else if s.len() > 0 && is_white(s.last()) {
        trim(s.drop_last())
    } else {
        s
    }
}

/// Removes leading and trailing white space.
pub fn trim_seq(s: &Vec<char>) -> (r: Vec<char>)
    ensures
        r@ == trim(s@),
{
    let mut a: usize = 0;
    assert(s@.subrange(0, s.len() as int) =~= s@);
    while a < s.len() && white(s[a])
        invariant
            a <= s.len(),
            trim(s@) == trim(s@.subrange(a as int, s.len() as int)),
        decreases s.len() - a,
    {
        assert(s@.subrange(a as int, s.len() as int).drop_first() =~= s@.subrange(a + 1, s.len() as int));
        a = a + 1;
    }
    let mut b: usize = s.len();
    while b > a && white(s[b - 1])
        invariant
            a <= b <= s.len(),
            a < s.len() ==> !is_white(s@[a as int]),
            trim(s@) == trim(s@.subrange(a as int, b as int)),
        decreases b - a,
    {
        assert(s@.subrange(a as int, b as int).drop_last() =~= s@.subrange(a as int, b - 1));
        b = b - 1;
    }
    let mut out: Vec<char> = Vec::new();
    let mut i: usize = a;
    while i < b
        invariant
            a <= i <= b <= s.len(),
            out@ == s@.subrange(a as int, i as int),
        decreases b - i,
    {
        out.push(s[i]);
        assert(s@.subrange(a as int, i + 1) =~= s@.subrange(a as int, i as int).push(s@[i as int]));
        i = i + 1;
    }
    out
}


/// The label cleaned up through to the removal of the first parenthesised
/// span: markers for grammatical objects removed, question and exclamation
/// marks spelled out, and the separators `|`, `.` and `"/ "` removed.
pub open spec fn stripped_label(raw: Seq<char>) -> Seq<char> {
    let s = replace_all(raw, seq!['e', 't', 'w', 'a', 's'], seq![]);
    let s = replace_all(s, seq!['j', 'e', 'm', 'a', 'n', 'd', 'e', 'n'], seq![]);
    let s = replace_all(s, seq!['?'], seq![' ', '(', 'F', 'r', 'a', 'g', 'e', ')']);
    let s = replace_all(s, seq!['!'], seq![' ', '(', 'A', 'u', 's', 'r', 'u', 'f', 'e', ')']);
    let s = replace_all(s, seq!['|'], seq![]);
    let s = replace_all(s, seq!['.'], seq![]);
    let s = replace_all(s, seq!['/', ' '], seq![]);
    strip_first_paren(s)
}

/// The key that a raw vocabulary label normalises to: [`stripped_label`],
/// then every remaining `/` turned into `-`, then trimmed.
pub open spec fn normalized(raw: Seq<char>) -> Seq<char> {
    trim(replace_all(stripped_label(raw), seq!['/'], seq!['-']))
}

/// Turns a raw vocabulary label into a clean key; an empty result means the
/// label is unusable.
pub fn normalize(raw: &str) -> (r: String)
    ensures
        r@ == normalized(raw@),
{
    let s = chars_of(raw);
    let etwas = vec!['e', 't', 'w', 'a', 's'];
    let jemanden = vec!['j', 'e', 'm', 'a', 'n', 'd', 'e', 'n'];
    let question = vec!['?'];
    let question_tag = vec![' ', '(', 'F', 'r', 'a', 'g', 'e', ')'];
    let exclamation = vec!['!'];
    let exclamation_tag = vec![' ', '(', 'A', 'u', 's', 'r', 'u', 'f', 'e', ')'];
    let bar = vec!['|'];
    let dot = vec!['.'];
    let slash_space = vec!['/', ' '];
    let slash = vec!['/'];
    let dash = vec!['-'];
    let nothing: Vec<char> = Vec::new();
    assert(etwas@ =~= seq!['e', 't', 'w', 'a', 's']);
    assert(jemanden@ =~= seq!['j', 'e', 'm', 'a', 'n', 'd', 'e', 'n']);
    assert(question@ =~= seq!['?']);
    assert(question_tag@ =~= seq![' ', '(', 'F', 'r', 'a', 'g', 'e', ')']);
    assert(exclamation@ =~= seq!['!']);
    assert(exclamation_tag@ =~= seq![' ', '(', 'A', 'u', 's', 'r', 'u', 'f', 'e', ')']);
    assert(bar@ =~= seq!['|']);
    assert(dot@ =~= seq!['.']);
    assert(slash_space@ =~= seq!['/', ' ']);
    assert(slash@ =~= seq!['/']);
    assert(dash@ =~= seq!['-']);
    assert(nothing@ =~= Seq::<char>::empty());
    let s = replace_seq(&s, &etwas, &nothing);
    let s = replace_seq(&s, &jemanden, &nothing);
    let s = replace_seq(&s, &question, &question_tag);
    let s = replace_seq(&s, &exclamation, &exclamation_tag);
    let s = replace_seq(&s, &bar, &nothing);
    let s = replace_seq(&s, &dot, &nothing);
    let s = replace_seq(&s, &slash_space, &nothing);
    let s = strip_paren(&s);
    let s = replace_seq(&s, &slash, &dash);
    let s = trim_seq(&s);
    string_of(&s)
}

} // verus!
