use vstd::prelude::*;

verus! {

/// True for the characters of Unicode's `White_Space` set, the characters
/// that trimming strips from the ends of a line.
pub open spec fn is_space(c: char) -> bool {
    c == ' ' || c == '\t' || c == '\n' || c == '\r' || c == '\u{b}' || c == '\u{c}'
        || c == '\u{85}' || c == '\u{a0}' || c == '\u{1680}'
        || (0x2000 <= c as u32 && c as u32 <= 0x200a)
        || c == '\u{2028}' || c == '\u{2029}' || c == '\u{202f}' || c == '\u{205f}'
        || c == '\u{3000}'
}

/// Decides `is_space` for one character.
pub fn is_space_char(c: char) -> (r: bool)
    ensures
        r == is_space(c),
{
    let u = c as u32;
    u == 0x20 || u == 0x9 || u == 0xa || u == 0xd || u == 0xb || u == 0xc || u == 0x85
        || u == 0xa0 || u == 0x1680 || (0x2000 <= u && u <= 0x200a) || u == 0x2028
        || u == 0x2029 || u == 0x202f || u == 0x205f || u == 0x3000
}

/// Decides whether two string slices have equal contents.
pub fn str_eq(a: &str, b: &str) -> (r: bool)
    ensures
        r == (a@ == b@),
{
    let na = a.unicode_len();
    let nb = b.unicode_len();
    if na != nb {
        return false;
    }
    let mut i: usize = 0;
    while i < na
        invariant
            na == a@.len(),
            na == b@.len(),
            i <= na,
            forall|j: int| 0 <= j < i ==> a@[j] == b@[j],
        decreases na - i,
    {
        if a.get_char(i) != b.get_char(i) {
            return false;
        }
        i = i + 1;
    }
    proof {
        assert(a@ =~= b@);
    }
    true
}

/// The number of leading characters of `s` that satisfy `p`.
pub open spec fn count_leading(s: Seq<char>, p: spec_fn(char) -> bool) -> nat
    decreases s.len(),
{
    if s.len() == 0 || !p(s[0]) {
        0
    } else {
        1 + count_leading(s.drop_first(), p)
    }
}

/// The number of trailing characters of `s` that satisfy `p`.
pub open spec fn count_trailing(s: Seq<char>, p: spec_fn(char) -> bool) -> nat
    decreases s.len(),
{
    if s.len() == 0 || !p(s.last()) {
        0
    } else {
        1 + count_trailing(s.drop_last(), p)
    }
}

/// `s` with every leading and trailing character satisfying `p` removed.
pub open spec fn trim_by(s: Seq<char>, p: spec_fn(char) -> bool) -> Seq<char> {
    if count_leading(s, p) == s.len() {
        Seq::empty()
    } else {
        s.subrange(count_leading(s, p) as int, s.len() - count_trailing(s, p))
    }
}

pub proof fn lemma_count_leading_is(s: Seq<char>, p: spec_fn(char) -> bool, i: int)
    requires
        0 <= i <= s.len(),
        forall|j: int| 0 <= j < i ==> p(s[j]),
        i == s.len() || !p(s[i]),
    ensures
        count_leading(s, p) == i,
    decreases s.len(),
{
    if i == 0 {
    } else {
        assert(p(s[0]));
        assert forall|j: int| 0 <= j < i - 1 implies p(s.drop_first()[j]) by {
            assert(s.drop_first()[j] == s[j + 1]);
        }
        lemma_count_leading_is(s.drop_first(), p, i - 1);
    }
}

pub proof fn lemma_count_trailing_is(s: Seq<char>, p: spec_fn(char) -> bool, t: int)
    requires
        0 <= t <= s.len(),
        forall|j: int| s.len() - t <= j < s.len() ==> p(s[j]),
        t == s.len() || !p(s[s.len() - t - 1]),
    ensures
        count_trailing(s, p) == t,
    decreases s.len(),
{
    if t == 0 {
    } else {
        assert(p(s.last()));
        assert forall|j: int| s.drop_last().len() - (t - 1) <= j < s.drop_last().len() implies p(
            s.drop_last()[j],
        ) by {
            assert(s.drop_last()[j] == s[j]);
        }
        lemma_count_trailing_is(s.drop_last(), p, t - 1);
    }
}

/// The predicate used by `trim_ends`: whitespace, or a double quote.
pub open spec fn trim_pred(quotes: bool) -> spec_fn(char) -> bool {
    if quotes {
        |c: char| c == '"'
    } else {
        |c: char| is_space(c)
    }
}

/// Decides `trim_pred(quotes)` for one character.
fn trim_pred_char(c: char, quotes: bool) -> (r: bool)
    ensures
        r == trim_pred(quotes)(c),
{
    if quotes {
        c == '"'
    } else {
        is_space_char(c)
    }
}

/// Removes from both ends of `s` every character satisfying `trim_pred(quotes)`.
pub fn trim_ends<'a>(s: &'a str, quotes: bool) -> (r: &'a str)
    ensures
        r@ == trim_by(s@, trim_pred(quotes)),
{
    let n = s.unicode_len();
    let mut i: usize = 0;
    while i < n && trim_pred_char(s.get_char(i), quotes)
        invariant
            n == s@.len(),
            i <= n,
            forall|j: int| 0 <= j < i ==> trim_pred(quotes)(s@[j]),
        decreases n - i,
    {
        i = i + 1;
    }
    proof {
        lemma_count_leading_is(s@, trim_pred(quotes), i as int);
    }
    if i == n {
        let r = s.substring_char(n, n);
        proof {
            assert(r@ =~= Seq::<char>::empty());
        }
        return r;
    }
    let mut j: usize = n;
    while j > i && trim_pred_char(s.get_char(j - 1), quotes)
        invariant
            n == s@.len(),
            i < n,
            !trim_pred(quotes)(s@[i as int]),
            i <= j <= n,
            forall|k: int| j <= k < n ==> trim_pred(quotes)(s@[k]),
        decreases j,
    {
        j = j - 1;
    }
    proof {
        assert(j > i);
        assert(!trim_pred(quotes)(s@[j - 1]));
        lemma_count_trailing_is(s@, trim_pred(quotes), n - j);
    }
    s.substring_char(i, j)
}

/// The index of the first comma in `s`, or `s.len()` if there is none.
pub open spec fn first_comma(s: Seq<char>) -> nat
    decreases s.len(),
{
    if s.len() == 0 {
        0
    } else if s[0] == ',' {
        0
    } else {
        1 + first_comma(s.drop_first())
    }
}

pub proof fn lemma_first_comma_is(s: Seq<char>, i: int)
    requires
        0 <= i <= s.len(),
        forall|j: int| 0 <= j < i ==> s[j] != ',',
        i == s.len() || s[i] == ',',
    ensures
        first_comma(s) == i,
    decreases s.len(),
{
    if i == 0 {
    } else {
        assert(s[0] != ',');
        assert forall|j: int| 0 <= j < i - 1 implies s.drop_first()[j] != ',' by {
            assert(s.drop_first()[j] == s[j + 1]);
        }
        lemma_first_comma_is(s.drop_first(), i - 1);
    }
}

/// `s` divided at its commas; the commas themselves are dropped.  A string
/// with no comma yields the one-element sequence of itself.
pub open spec fn split_commas(s: Seq<char>) -> Seq<Seq<char>>
    decreases s.len(),
{
    let i = first_comma(s);
    if i >= s.len() {
        seq![s]
    } else {
        seq![s.subrange(0, i as int)] + split_commas(
            s.subrange(i as int + 1, s.len() as int),
        )
    }
}

/// The sequence of contents of a sequence of strings.
pub open spec fn views_of(v: Seq<String>) -> Seq<Seq<char>> {
    v.map_values(|t: String| t@)
}

/// Divides `s` at its commas, dropping the commas.
pub fn split_commas_exec(s: &str) -> (r: Vec<String>)
    ensures
        views_of(r@) == split_commas(s@),
    decreases s@.len(),
{
    let n = s.unicode_len();
    let mut i: usize = 0;
    while i < n && s.get_char(i) != ','
        invariant
            n == s@.len(),
            i <= n,
            forall|j: int| 0 <= j < i ==> s@[j] != ',',
        decreases n - i,
    {
        i = i + 1;
    }
    proof {
        lemma_first_comma_is(s@, i as int);
    }
    let head = s.substring_char(0, i).to_owned();
    if i == n {
        let r = vec![head];
        proof {
            assert(head@ =~= s@);
            assert(views_of(r@) =~= split_commas(s@));
        }
        r
    } else {
        let rest = s.substring_char(i + 1, n);
        let mut r = split_commas_exec(rest);
        r.insert(0, head);
        proof {
            assert(views_of(r@) =~= split_commas(s@));
        }
        r
    }
}


/// The index of the first whitespace character of `s`, or `s.len()` if
/// there is none.
pub open spec fn first_space(s: Seq<char>) -> nat
    decreases s.len(),
{
    if s.len() == 0 {
        0
    } else if is_space(s[0]) {
        0
    } else {
        1 + first_space(s.drop_first())
    }
}

pub proof fn lemma_first_space_is(s: Seq<char>, i: int)
    requires
        0 <= i <= s.len(),
        forall|j: int| 0 <= j < i ==> !is_space(s[j]),
        i == s.len() || is_space(s[i]),
    ensures
        first_space(s) == i,
    decreases s.len(),
{
    if i == 0 {
    } else {
        assert(!is_space(s[0]));
        assert forall|j: int| 0 <= j < i - 1 implies !is_space(s.drop_first()[j]) by {
            assert(s.drop_first()[j] == s[j + 1]);
        }
        lemma_first_space_is(s.drop_first(), i - 1);
    }
}

/// The whitespace-separated words of `s`, in order, each nonempty.
pub open spec fn tokens_of(s: Seq<char>) -> Seq<Seq<char>>
    decreases s.len(),
{
    if s.len() == 0 {
        Seq::empty()
    } else if is_space(s[0]) {
        tokens_of(s.drop_first())
    } else {
        let e = first_space(s);
        if e >= s.len() {
            seq![s]
        } else {
            seq![s.subrange(0, e as int)] + tokens_of(s.subrange(e as int, s.len() as int))
        }
    }
}

/// Divides `s` into its whitespace-separated words.
pub fn tokenize(s: &str) -> (r: Vec<String>)
    ensures
        views_of(r@) == tokens_of(s@),
    decreases s@.len(),
{
    let n = s.unicode_len();
    if n == 0 {
        let r: Vec<String> = Vec::new();
        proof {
            assert(views_of(r@) =~= tokens_of(s@));
        }
        return r;
    }
    if is_space_char(s.get_char(0)) {
        let rest = s.substring_char(1, n);
        proof {
            assert(rest@ =~= s@.drop_first());
        }
        return tokenize(rest);
    }
    let mut e: usize = 0;
    while e < n && !is_space_char(s.get_char(e))
        invariant
            n == s@.len(),
            e <= n,
            forall|j: int| 0 <= j < e ==> !is_space(s@[j]),
        decreases n - e,
    {
        e = e + 1;
    }
    proof {
        lemma_first_space_is(s@, e as int);
    }
    let head = s.substring_char(0, e).to_owned();
    if e == n {
        let r = vec![head];
        proof {
            assert(head@ =~= s@);
            assert(views_of(r@) =~= tokens_of(s@));
        }
        r
    } else {
        let rest = s.substring_char(e, n);
        let mut r = tokenize(rest);
        r.insert(0, head);
        proof {
            assert(views_of(r@) =~= tokens_of(s@));
        }
        r
    }
}

} // verus!
