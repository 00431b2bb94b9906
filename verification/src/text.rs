//! Character-level text utilities: tokenization, digit widening and decimal
//! rendering, with matching specification functions.

use vstd::prelude::*;

verus! {

/// The separator characters recognized when breaking a reply text or a
/// transcript into tokens: ASCII whitespace plus the non-ASCII spaces a feed
/// reply plausibly carries, the ideographic space among them.
pub open spec fn is_ws(c: char) -> bool {
    c == ' ' || c == '\n' || c == '\t' || c == '\r' || c == '\u{000B}' || c == '\u{000C}' || c
        == '\u{0085}' || c == '\u{00A0}' || c == '\u{3000}'
}

pub fn is_whitespace(c: char) -> (r: bool)
    ensures
        r == is_ws(c),
{
    c == ' ' || c == '\n' || c == '\t' || c == '\r' || c == '\u{000B}' || c == '\u{000C}' || c
        == '\u{0085}' || c == '\u{00A0}' || c == '\u{3000}'
}

/// Whether `s` holds no line break. The contextual-notation grammar reserves
/// line-terminated lines for headers and board diagrams, so only texts free
/// of line breaks are ever handed to it.
pub open spec fn line_free(s: Seq<char>) -> bool {
    forall|j: int| 0 <= j < s.len() ==> s[j] != '\n' && s[j] != '\r'
}

/// Whether `s` holds no line break.
pub fn is_line_free(s: &String) -> (r: bool)
    ensures
        r == line_free(s@),
{
    let st = s.as_str();
    let n: usize = st.unicode_len();
    let mut i: usize = 0;
    while i < n
        invariant
            0 <= i <= n,
            n == s@.len(),
            st@ == s@,
            forall|j: int| 0 <= j < i ==> s@[j] != '\n' && s@[j] != '\r',
        decreases n - i,
    {
        let c = st.get_char(i);
        if c == '\n' || c == '\r' {
            return false;
        }
        i = i + 1;
    }
    true
}

/// Every character of `s` collected into a vector.
pub fn to_chars(s: &str) -> (r: Vec<char>)
    ensures
        r@ == s@,
{
    let n: usize = s.unicode_len();
    let mut r: Vec<char> = Vec::new();
    let mut i: usize = 0;
    while i < n
        invariant
            0 <= i <= n,
            n == s@.len(),
            r@ == s@.take(i as int),
        decreases n - i,
    {
        let c = s.get_char(i);
        r.push(c);
        proof {
            assert(r@ =~= s@.take(i + 1 as int));
        }
        i = i + 1;
    }
    proof {
        assert(r@ =~= s@);
    }
    r
}

/// Index of the first space in `s`, or `s.len()` if there is none.
pub open spec fn first_space(s: Seq<char>) -> int
    decreases s.len(),
{
    if s.len() == 0 {
        0
    } else if s[0] == ' ' {
        0
    } else {
        1 + first_space(s.skip(1))
    }
}

/// `first_space` is the least index holding a space.
pub proof fn lemma_first_space_at(s: Seq<char>, k: int)
    requires
        0 <= k <= s.len(),
        forall|j: int| 0 <= j < k ==> s[j] != ' ',
        k < s.len() ==> s[k] == ' ',
    ensures
        first_space(s) == k,
    decreases s.len(),
{
    if k == 0 {
    } else {
        assert(s[0] != ' ');
        assert forall|j: int| 0 <= j < k - 1 implies s.skip(1)[j] != ' ' by {
            assert(s.skip(1)[j] == s[j + 1]);
        }
        if k - 1 < s.skip(1).len() {
            assert(s.skip(1)[k - 1] == s[k]);
        }
        lemma_first_space_at(s.skip(1), k - 1);
    }
}

/// `s` broken at single spaces: a sequence of n spaces yields n + 1 tokens,
/// so empty tokens mark leading, trailing or doubled spaces.
pub open spec fn tokens_of(s: Seq<char>) -> Seq<Seq<char>>
    decreases s.len(),
{
    let i = first_space(s);
    if 0 <= i < s.len() {
        seq![s.take(i)] + tokens_of(s.skip(i + 1))
    } else {
        seq![s]
    }
}

/// Break `v` at single spaces, as `tokens_of` describes.
pub fn tokenize(v: &Vec<char>) -> (r: Vec<Vec<char>>)
    ensures
        r@.len() == tokens_of(v@).len(),
        forall|k: int| 0 <= k < r@.len() ==> r@[k]@ == tokens_of(v@)[k],
{
    let mut out: Vec<Vec<char>> = Vec::new();
    let ghost mut done: Seq<Seq<char>> = Seq::empty();
    let mut start: usize = 0;
    proof {
        assert(v@.skip(0) =~= v@);
        assert(done + tokens_of(v@) =~= tokens_of(v@));
    }
    loop
        invariant_except_break
            start <= v@.len(),
            out@.len() == done.len(),
            forall|k: int| 0 <= k < out@.len() ==> out@[k]@ == done[k],
            tokens_of(v@) == done + tokens_of(v@.skip(start as int)),
        ensures
            out@.len() == tokens_of(v@).len(),
            forall|k: int| 0 <= k < out@.len() ==> out@[k]@ == tokens_of(v@)[k],
        decreases v@.len() - start,
    {
        let mut i: usize = start;
        while i < v.len() && *v.get(i).unwrap() != ' '
            invariant
                start <= i <= v@.len(),
                forall|j: int| start <= j < i ==> v@[j] != ' ',
            decreases v@.len() - i,
        {
            i = i + 1;
        }
        let mut tok: Vec<char> = Vec::new();
        let mut j: usize = start;
        while j < i
            invariant
                start <= j <= i <= v@.len(),
                tok@ == v@.subrange(start as int, j as int),
            decreases i - j,
        {
            tok.push(*v.get(j).unwrap());
            proof {
                assert(tok@ =~= v@.subrange(start as int, j + 1 as int));
            }
            j = j + 1;
        }
        proof {
            let s = v@.skip(start as int);
            assert forall|j2: int| 0 <= j2 < i - start implies s[j2] != ' ' by {
                assert(s[j2] == v@[start + j2]);
            }
            if i < v@.len() {
                assert(s[i - start] == v@[i as int]);
            }
            lemma_first_space_at(s, i - start);
            assert(s.take(i - start) =~= v@.subrange(start as int, i as int));
        }
        out.push(tok);
        if i == v.len() {
            proof {
                let s = v@.skip(start as int);
                assert(tokens_of(s) =~= seq![s]);
                assert(s =~= v@.subrange(start as int, i as int));
                done = done.push(s);
                assert(tokens_of(v@) =~= done);
            }
            break;
        }
        proof {
            let s = v@.skip(start as int);
            assert(s.skip(i - start + 1) =~= v@.skip(i + 1 as int));
            assert(tokens_of(s) == seq![s.take(i - start)] + tokens_of(v@.skip(i + 1 as int)));
            done = done.push(s.take(i - start));
            assert(tokens_of(v@) =~= done + tokens_of(v@.skip(i + 1 as int)));
        }
        start = i + 1;
    }
    out
}

/// The first whitespace-separated token of `s`; empty if `s` is all
/// whitespace or empty.
pub open spec fn first_token(s: Seq<char>) -> Seq<char>
    decreases s.len(),
{
    if s.len() == 0 {
        Seq::empty()
    } else if is_ws(s[0]) {
        first_token(s.skip(1))
    } else {
        nonws_prefix(s)
    }
}

/// The longest prefix of `s` free of whitespace.
pub open spec fn nonws_prefix(s: Seq<char>) -> Seq<char>
    decreases s.len(),
{
    if s.len() == 0 || is_ws(s[0]) {
        Seq::empty()
    } else {
        seq![s[0]] + nonws_prefix(s.skip(1))
    }
}

proof fn lemma_first_token_skip(s: Seq<char>, a: int)
    requires
        0 <= a <= s.len(),
        forall|j: int| 0 <= j < a ==> is_ws(s[j]),
    ensures
        first_token(s) == first_token(s.skip(a)),
    decreases a,
{
    if a > 0 {
        assert forall|j: int| 0 <= j < a - 1 implies is_ws(s.skip(1)[j]) by {
            assert(s.skip(1)[j] == s[j + 1]);
        }
        lemma_first_token_skip(s.skip(1), a - 1);
        assert(s.skip(1).skip(a - 1) =~= s.skip(a));
    } else {
        assert(s.skip(0) =~= s);
    }
}

proof fn lemma_nonws_prefix(s: Seq<char>, b: int)
    requires
        0 <= b <= s.len(),
        forall|j: int| 0 <= j < b ==> !is_ws(s[j]),
        b < s.len() ==> is_ws(s[b]),
    ensures
        nonws_prefix(s) == s.take(b),
    decreases b,
{
    if b == 0 {
        assert(nonws_prefix(s) =~= s.take(0));
    } else {
        assert forall|j: int| 0 <= j < b - 1 implies !is_ws(s.skip(1)[j]) by {
            assert(s.skip(1)[j] == s[j + 1]);
        }
        if b - 1 < s.skip(1).len() {
            assert(s.skip(1)[b - 1] == s[b]);
        }
        lemma_nonws_prefix(s.skip(1), b - 1);
        assert(nonws_prefix(s) == seq![s[0]] + s.skip(1).take(b - 1));
        assert(seq![s[0]] + s.skip(1).take(b - 1) =~= s.take(b));
    }
}

/// The ASCII digits 1 to 9 replaced by their full-width forms; every other
/// character kept.
pub open spec fn widen_char(c: char) -> char {
    if c == '1' {
        '１'
    } else if c == '2' {
        '２'
    } else if c == '3' {
        '３'
    } else if c == '4' {
        '４'
    } else if c == '5' {
        '５'
    } else if c == '6' {
        '６'
    } else if c == '7' {
        '７'
    } else if c == '8' {
        '８'
    } else if c == '9' {
        '９'
    } else {
        c
    }
}

pub open spec fn widened(s: Seq<char>) -> Seq<char> {
    s.map_values(|c: char| widen_char(c))
}

/// The first whitespace-separated token of `text`, with ASCII digits
/// replaced by their full-width forms.
pub fn widened_first_token(text: &str) -> (r: String)
    ensures
        r@ == widened(first_token(text@)),
{
    let n: usize = text.unicode_len();
    let mut a: usize = 0;
    while a < n && is_whitespace(text.get_char(a))
        invariant
            0 <= a <= n,
            n == text@.len(),
            forall|j: int| 0 <= j < a ==> is_ws(text@[j]),
        decreases n - a,
    {
        a = a + 1;
    }
    let mut b: usize = a;
    while b < n && !is_whitespace(text.get_char(b))
        invariant
            a <= b <= n,
            n == text@.len(),
            forall|j: int| a <= j < b ==> !is_ws(text@[j]),
        decreases n - b,
    {
        b = b + 1;
    }
    proof {
        lemma_first_token_skip(text@, a as int);
        let s = text@.skip(a as int);
        assert forall|j: int| 0 <= j < b - a implies !is_ws(s[j]) by {
            assert(s[j] == text@[a + j]);
        }
        if b - a < s.len() {
            assert(s[b - a] == text@[b as int]);
        }
        if a < n {
            assert(!is_ws(s[0]));
            lemma_nonws_prefix(s, b - a);
            assert(s.take(b - a) =~= text@.subrange(a as int, b as int));
            assert(first_token(text@) == text@.subrange(a as int, b as int));
        } else {
            assert(s =~= Seq::<char>::empty());
            assert(first_token(text@) =~= text@.subrange(a as int, b as int));
        }
    }
    let mut out = String::new();
    let mut j: usize = a;
    while j < b
        invariant
            a <= j <= b <= n,
            n == text@.len(),
            out@ == widened(text@.subrange(a as int, j as int)),
        decreases b - j,
    {
        let c = text.get_char(j);
        if c == '1' {
            out.append("１");
            proof { reveal_strlit("１"); }
        } else if c == '2' {
            out.append("２");
            proof { reveal_strlit("２"); }
        } else if c == '3' {
            out.append("３");
            proof { reveal_strlit("３"); }
        } else if c == '4' {
            out.append("４");
            proof { reveal_strlit("４"); }
        } else if c == '5' {
            out.append("５");
            proof { reveal_strlit("５"); }
        } else if c == '6' {
            out.append("６");
            proof { reveal_strlit("６"); }
        } else if c == '7' {
            out.append("７");
            proof { reveal_strlit("７"); }
        } else if c == '8' {
            out.append("８");
            proof { reveal_strlit("８"); }
        } else if c == '9' {
            out.append("９");
            proof { reveal_strlit("９"); }
        } else {
            let piece = text.substring_char(j, j + 1);
            out.append(piece);
        }
        proof {
            assert(out@ =~= widened(text@.subrange(a as int, j + 1 as int)));
        }
        j = j + 1;
    }
    proof {
        assert(widened(text@.subrange(a as int, b as int)) == widened(first_token(text@)));
    }
    out
}

/// The decimal digit characters.
pub open spec fn digit_char(d: int) -> char {
    if d == 0 {
        '0'
    } else if d == 1 {
        '1'
    } else if d == 2 {
        '2'
    } else if d == 3 {
        '3'
    } else if d == 4 {
        '4'
    } else if d == 5 {
        '5'
    } else if d == 6 {
        '6'
    } else if d == 7 {
        '7'
    } else if d == 8 {
        '8'
    } else {
        '9'
    }
}

/// `n` written in decimal, most significant digit first.
pub open spec fn dec_of(n: int) -> Seq<char>
    decreases n,
{
    if n < 10 {
        seq![digit_char(n)]
    } else {
        dec_of(n / 10).push(digit_char(n % 10))
    }
}

fn digit_str(d: u128) -> (r: &'static str)
    requires
        d < 10,
    ensures
        r@ == seq![digit_char(d as int)],
{
    proof {
        reveal_strlit("0");
        reveal_strlit("1");
        reveal_strlit("2");
        reveal_strlit("3");
        reveal_strlit("4");
        reveal_strlit("5");
        reveal_strlit("6");
        reveal_strlit("7");
        reveal_strlit("8");
        reveal_strlit("9");
    }
    let r: &'static str = if d == 0 {
        "0"
    } else if d == 1 {
        "1"
    } else if d == 2 {
        "2"
    } else if d == 3 {
        "3"
    } else if d == 4 {
        "4"
    } else if d == 5 {
        "5"
    } else if d == 6 {
        "6"
    } else if d == 7 {
        "7"
    } else if d == 8 {
        "8"
    } else {
        "9"
    };
    proof {
        assert(r@ =~= seq![digit_char(d as int)]);
    }
    r
}

/// `n` rendered in decimal.
pub fn dec_string(n: u128) -> (r: String)
    ensures
        r@ == dec_of(n as int),
    decreases n,
{
    if n < 10 {
        String::from_str(digit_str(n))
    } else {
        let mut r = dec_string(n / 10);
        r.append(digit_str(n % 10));
        proof {
            assert(r@ =~= dec_of(n as int));
        }
        r
    }
}

/// Relies on std's `String::push`: appends one character to the string.
#[verifier::external_body]
fn push_char(s: &mut String, c: char)
    ensures
        final(s)@ == old(s)@.push(c),
{
    s.push(c);
}

/// Append every character of `v` to `s`.
pub fn append_chars(s: &mut String, v: &Vec<char>)
    ensures
        final(s)@ == old(s)@ + v@,
{
    let n = v.len();
    let mut i: usize = 0;
    proof {
        assert(s@ =~= old(s)@ + v@.take(0));
    }
    while i < n
        invariant
            0 <= i <= n,
            n == v@.len(),
            s@ == old(s)@ + v@.take(i as int),
        decreases n - i,
    {
        push_char(s, *v.get(i).unwrap());
        proof {
            assert(s@ =~= old(s)@ + v@.take(i + 1 as int));
        }
        i = i + 1;
    }
    proof {
        assert(v@.take(n as int) =~= v@);
    }
}

/// `s` with trailing whitespace removed.
pub open spec fn strip_trailing_ws(s: Seq<char>) -> Seq<char>
    decreases s.len(),
{
    if s.len() > 0 && is_ws(s[s.len() - 1]) {
        strip_trailing_ws(s.drop_last())
    } else {
        s
    }
}

/// The longest suffix of `s` free of whitespace.
pub open spec fn nonws_suffix(s: Seq<char>) -> Seq<char>
    decreases s.len(),
{
    if s.len() == 0 || is_ws(s[s.len() - 1]) {
        Seq::empty()
    } else {
        nonws_suffix(s.drop_last()).push(s[s.len() - 1])
    }
}

/// The last whitespace-separated token of `s`, if `s` holds any token.
pub open spec fn last_token(s: Seq<char>) -> Option<Seq<char>> {
    if strip_trailing_ws(s).len() == 0 {
        None
    } else {
        Some(nonws_suffix(strip_trailing_ws(s)))
    }
}

/// The last whitespace-separated token of `s`, if any.
pub fn last_token_str(s: &str) -> (r: Option<String>)
    ensures
        match r {
            Some(t) => last_token(s@) == Some(t@),
            None => last_token(s@) is None,
        },
{
    let n: usize = s.unicode_len();
    let mut e: usize = n;
    proof {
        assert(s@.take(n as int) =~= s@);
    }
    while e > 0 && is_whitespace(s.get_char(e - 1))
        invariant
            0 <= e <= n,
            n == s@.len(),
            strip_trailing_ws(s@) == strip_trailing_ws(s@.take(e as int)),
        decreases e,
    {
        proof {
            let t = s@.take(e as int);
            assert(t[t.len() - 1] == s@[e - 1]);
            assert(t.drop_last() =~= s@.take(e - 1));
        }
        e = e - 1;
    }
    if e == 0 {
        proof {
            assert(s@.take(0) =~= Seq::<char>::empty());
        }
        None
    } else {
        proof {
            let t = s@.take(e as int);
            assert(t[t.len() - 1] == s@[e - 1]);
            assert(strip_trailing_ws(t) == t);
        }
        let mut b: usize = e;
        while b > 0 && !is_whitespace(s.get_char(b - 1))
            invariant
                0 <= b <= e <= n,
                n == s@.len(),
                nonws_suffix(s@.take(e as int)) == nonws_suffix(s@.take(b as int)) + s@.subrange(
                    b as int,
                    e as int,
                ),
            decreases b,
        {
            proof {
                let t = s@.take(b as int);
                assert(t[t.len() - 1] == s@[b - 1]);
                assert(t.drop_last() =~= s@.take(b - 1));
                assert(nonws_suffix(s@.take(b as int)) == nonws_suffix(s@.take(b - 1)).push(
                    s@[b - 1],
                ));
                assert(nonws_suffix(s@.take(b - 1)) + s@.subrange(b - 1, e as int) =~= nonws_suffix(
                    s@.take(b - 1),
                ).push(s@[b - 1]) + s@.subrange(b as int, e as int));
            }
            b = b - 1;
        }
        proof {
            if b == 0 {
                assert(s@.take(0) =~= Seq::<char>::empty());
                assert(nonws_suffix(s@.take(0)) + s@.subrange(0, e as int) =~= s@.subrange(
                    0,
                    e as int,
                ));
            } else {
                let t = s@.take(b as int);
                assert(t[t.len() - 1] == s@[b - 1]);
                assert(nonws_suffix(t) =~= Seq::<char>::empty());
                assert(nonws_suffix(t) + s@.subrange(b as int, e as int) =~= s@.subrange(
                    b as int,
                    e as int,
                ));
            }
        }
        let tok = s.substring_char(b, e);
        Some(String::from_str(tok))
    }
}

} // verus!
