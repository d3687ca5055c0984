//! Plain-text helpers for the line protocol: splitting a command line into
//! whitespace-separated tokens and trimming surrounding blanks, together with
//! the specification-level functions that the rest of the crate's contracts
//! are stated over.
use vstd::prelude::*;

verus! {

/// The blank characters that can separate tokens on a protocol line
/// (a trailing newline from the line reader included).
pub open spec fn is_blank_char(c: char) -> bool {
    c == ' ' || c == '\t' || c == '\r' || c == '\n'
}

/// Executable test for [`is_blank_char`].
pub fn blank_char(c: char) -> (r: bool)
    ensures
        r == is_blank_char(c),
{
    c == ' ' || c == '\t' || c == '\r' || c == '\n'
}

/// Length of the leading run of non-blank characters of `s`.
pub open spec fn token_len(s: Seq<char>) -> nat
    decreases s.len(),
{
    if s.len() == 0 || is_blank_char(s[0]) {
        0
    } else {
        1 + token_len(s.drop_first())
    }
}

/// The leading token is never longer than the line itself.
pub proof fn lemma_token_len_le(s: Seq<char>)
    ensures
        token_len(s) <= s.len(),
    decreases s.len(),
{
    if s.len() > 0 && !is_blank_char(s[0]) {
        lemma_token_len_le(s.drop_first());
    }
}

/// The whitespace-separated tokens of `s`, in order of appearance.
pub open spec fn tokens_of(s: Seq<char>) -> Seq<Seq<char>>
    decreases s.len(),
    via tokens_of_dec
{
    if s.len() == 0 {
        Seq::empty()
    } else if is_blank_char(s[0]) {
        tokens_of(s.drop_first())
    } else {
        seq![s.take(token_len(s) as int)] + tokens_of(s.skip(token_len(s) as int))
    }
}

#[via_fn]
proof fn tokens_of_dec(s: Seq<char>) {
    lemma_token_len_le(s);
}

/// `s` with its leading blanks removed.
pub open spec fn trim_left(s: Seq<char>) -> Seq<char>
    decreases s.len(),
{
    if s.len() > 0 && is_blank_char(s[0]) {
        trim_left(s.drop_first())
    } else {
        s
    }
}

/// `s` with its trailing blanks removed.
pub open spec fn trim_right(s: Seq<char>) -> Seq<char>
    decreases s.len(),
{
    if s.len() > 0 && is_blank_char(s.last()) {
        trim_right(s.drop_last())
    } else {
        s
    }
}

/// `s` with blanks removed on both sides.
pub open spec fn trimmed(s: Seq<char>) -> Seq<char> {
    trim_right(trim_left(s))
}

/// Dropping one leading blank character leaves the token list unchanged.
proof fn lemma_tokens_drop_blank(s: Seq<char>)
    requires
        s.len() > 0,
        is_blank_char(s[0]),
    ensures
        tokens_of(s) == tokens_of(s.drop_first()),
{
}

/// A run of `k` non-blank characters followed by a blank (or the end)
/// is exactly the leading token.
proof fn lemma_token_len_run(s: Seq<char>, k: int)
    requires
        0 <= k <= s.len(),
        forall|m: int| 0 <= m < k ==> !is_blank_char(s[m]),
        k == s.len() || is_blank_char(s[k]),
    ensures
        token_len(s) == k,
    decreases k,
{
    if k == 0 {
    } else {
        assert(!is_blank_char(s[0]));
        lemma_token_len_run(s.drop_first(), k - 1);
    }
}

/// Splitting off the leading token at a blank boundary.
pub proof fn lemma_tokens_split(s: Seq<char>, j: int)
    requires
        0 < j <= s.len(),
        forall|m: int| 0 <= m < j ==> !is_blank_char(s[m]),
        j == s.len() || is_blank_char(s[j]),
    ensures
        tokens_of(s) == seq![s.take(j)] + tokens_of(s.skip(j)),
{
    lemma_token_len_run(s, j);
}

/// The leading blanks of `s` up to the first non-blank position `i` do not
/// belong to `trim_left(s)`.
proof fn lemma_trim_left_skip(s: Seq<char>, i: int)
    requires
        0 <= i <= s.len(),
        forall|m: int| 0 <= m < i ==> is_blank_char(s[m]),
        i == s.len() || !is_blank_char(s[i]),
    ensures
        trim_left(s) == s.skip(i),
    decreases i,
{
    if i == 0 {
        assert(trim_left(s) =~= s.skip(0));
    } else {
        lemma_trim_left_skip(s.drop_first(), i - 1);
        assert(s.drop_first().skip(i - 1) =~= s.skip(i));
    }
}

/// The trailing blanks of `s` from position `j` on do not belong to
/// `trim_right(s)`.
proof fn lemma_trim_right_take(s: Seq<char>, j: int)
    requires
        0 <= j <= s.len(),
        forall|m: int| j <= m < s.len() ==> is_blank_char(s[m]),
        j == 0 || !is_blank_char(s[j - 1]),
    ensures
        trim_right(s) == s.take(j),
    decreases s.len() - j,
{
    if j == s.len() {
        assert(trim_right(s) =~= s.take(j));
    } else {
        assert(is_blank_char(s.last()));
        lemma_trim_right_take(s.drop_last(), j);
        assert(s.drop_last().take(j) =~= s.take(j));
    }
}

/// The leading token is a run of non-blank characters ended by a blank or
/// by the end of the line.
pub proof fn lemma_token_len_char(s: Seq<char>)
    ensures
        forall|m: int| 0 <= m < token_len(s) ==> !is_blank_char(s[m]),
        token_len(s) == s.len() || is_blank_char(s[token_len(s) as int]),
    decreases s.len(),
{
    if s.len() > 0 && !is_blank_char(s[0]) {
        let d = s.drop_first();
        lemma_token_len_le(s);
        lemma_token_len_le(d);
        lemma_token_len_char(d);
        assert(token_len(s) == 1 + token_len(d));
        assert forall|m: int| 0 <= m < token_len(s) implies !is_blank_char(s[m]) by {
            if m > 0 {
                assert(s[m] == d[m - 1]);
                assert(!is_blank_char(d[m - 1]));
            }
        }
        if token_len(d) != d.len() {
            assert(s[token_len(s) as int] == d[token_len(d) as int]);
        }
    }
}

/// Leading blanks do not change the tokens.
pub proof fn lemma_tokens_trim_left(s: Seq<char>)
    ensures
        tokens_of(trim_left(s)) == tokens_of(s),
    decreases s.len(),
{
    if s.len() > 0 && is_blank_char(s[0]) {
        lemma_tokens_trim_left(s.drop_first());
    }
}

/// A trailing blank does not change the tokens.
pub proof fn lemma_tokens_drop_last_blank(s: Seq<char>)
    requires
        s.len() > 0,
        is_blank_char(s.last()),
    ensures
        tokens_of(s) == tokens_of(s.drop_last()),
    decreases s.len(),
{
    if s.len() == 1 {
        assert(s.drop_last() =~= Seq::<char>::empty());
        assert(s.drop_first() =~= Seq::<char>::empty());
    } else if is_blank_char(s[0]) {
        lemma_tokens_drop_last_blank(s.drop_first());
        assert(s.drop_first().drop_last() =~= s.drop_last().drop_first());
        assert(s.drop_last()[0] == s[0]);
    } else {
        let k = token_len(s) as int;
        lemma_token_len_char(s);
        assert(k < s.len()) by {
            if k == s.len() {
                assert(!is_blank_char(s[s.len() - 1]));
            }
        }
        let dl = s.drop_last();
        lemma_token_len_run(dl, k);
        assert(dl.take(k) =~= s.take(k));
        assert(dl.skip(k) =~= s.skip(k).drop_last());
        assert(s.skip(k).len() > 0 && is_blank_char(s.skip(k).last()));
        lemma_tokens_drop_last_blank(s.skip(k));
        assert(tokens_of(s) =~= tokens_of(s.drop_last()));
    }
}

/// Trailing blanks do not change the tokens.
pub proof fn lemma_tokens_trim_right(s: Seq<char>)
    ensures
        tokens_of(trim_right(s)) == tokens_of(s),
    decreases s.len(),
{
    if s.len() > 0 && is_blank_char(s.last()) {
        lemma_tokens_drop_last_blank(s);
        lemma_tokens_trim_right(s.drop_last());
    }
}

/// Trimming a line does not change its tokens.
pub proof fn lemma_tokens_trimmed(s: Seq<char>)
    ensures
        tokens_of(trimmed(s)) == tokens_of(s),
{
    lemma_tokens_trim_left(s);
    lemma_tokens_trim_right(trim_left(s));
}

/// A non-empty line without blanks is its own single token.
pub proof fn lemma_tokens_single(s: Seq<char>)
    requires
        s.len() > 0,
        forall|m: int| 0 <= m < s.len() ==> !is_blank_char(s[m]),
    ensures
        tokens_of(s) == seq![s],
{
    lemma_token_len_run(s, s.len() as int);
    assert(s.take(s.len() as int) =~= s);
    assert(s.skip(s.len() as int) =~= Seq::<char>::empty());
    assert(tokens_of(s.skip(s.len() as int)) == Seq::<Seq<char>>::empty());
    assert(tokens_of(s) =~= seq![s]);
}

/// A line of blanks alone has no tokens: the shape of the blank line that
/// closes a batch.
pub proof fn lemma_tokens_all_blank(s: Seq<char>)
    requires
        forall|m: int| 0 <= m < s.len() ==> is_blank_char(s[m]),
    ensures
        tokens_of(s) == Seq::<Seq<char>>::empty(),
    decreases s.len(),
{
    if s.len() > 0 {
        lemma_tokens_all_blank(s.drop_first());
    }
}

/// How many times `c` occurs in `s`.
pub open spec fn count_char(s: Seq<char>, c: char) -> nat
    decreases s.len(),
{
    if s.len() == 0 {
        0
    } else {
        (if s[0] == c {
            1nat
        } else {
            0nat
        }) + count_char(s.drop_first(), c)
    }
}

/// Index of the first occurrence of `c` in `s` (the length if absent).
pub open spec fn find_char(s: Seq<char>, c: char) -> int
    decreases s.len(),
{
    if s.len() == 0 {
        0
    } else if s[0] == c {
        0
    } else {
        1 + find_char(s.drop_first(), c)
    }
}

/// Counting one more character extends the count by whether it matches.
pub proof fn lemma_count_take_snoc(s: Seq<char>, c: char, i: int)
    requires
        0 <= i < s.len(),
    ensures
        count_char(s.take(i + 1), c) == count_char(s.take(i), c) + (if s[i] == c {
            1int
        } else {
            0int
        }),
    decreases i,
{
    if i == 0 {
        assert(s.take(1).drop_first() =~= Seq::<char>::empty());
        assert(count_char(s.take(1).drop_first(), c) == 0);
        assert(s.take(1)[0] == s[0]);
    } else {
        lemma_count_take_snoc(s.drop_first(), c, i - 1);
        assert(s.take(i + 1).drop_first() =~= s.drop_first().take(i));
        assert(s.take(i).drop_first() =~= s.drop_first().take(i - 1));
        assert(s.take(i + 1)[0] == s[0] && s.take(i)[0] == s[0]);
        assert(s.drop_first()[i - 1] == s[i]);
    }
}

/// The position of the first occurrence of `c` determines `find_char`.
pub proof fn lemma_find_first(s: Seq<char>, c: char, k: int)
    requires
        0 <= k < s.len(),
        s[k] == c,
        forall|m: int| 0 <= m < k ==> s[m] != c,
    ensures
        find_char(s, c) == k,
    decreases k,
{
    if k > 0 {
        lemma_find_first(s.drop_first(), c, k - 1);
    }
}

/// Splits `s` into its whitespace-separated tokens.
pub fn tokenize(s: &str) -> (r: Vec<String>)
    ensures
        r.deep_view() == tokens_of(s@),
{
    let n = s.unicode_len();
    let mut out: Vec<String> = Vec::new();
    let mut i: usize = 0;
    proof {
        assert(s@.skip(0) =~= s@);
        assert(out.deep_view() + tokens_of(s@) =~= tokens_of(s@));
    }
    while i < n
        invariant
            n == s@.len(),
            i <= n,
            tokens_of(s@) == out.deep_view() + tokens_of(s@.skip(i as int)),
        decreases n - i,
    {
        if blank_char(s.get_char(i)) {
            proof {
                lemma_tokens_drop_blank(s@.skip(i as int));
                assert(s@.skip(i as int).drop_first() =~= s@.skip(i + 1));
            }
            i = i + 1;
        } else {
            let start = i;
            let mut j: usize = i + 1;
            while j < n && !blank_char(s.get_char(j))
                invariant
                    n == s@.len(),
                    start < j <= n,
                    forall|m: int| start <= m < j ==> !is_blank_char(s@[m]),
                decreases n - j,
            {
                j = j + 1;
            }
            let token = s.substring_char(start, j).to_owned();
            proof {
                let rest = s@.skip(start as int);
                lemma_tokens_split(rest, j - start);
                assert(rest.take(j - start) =~= s@.subrange(start as int, j as int));
                assert(rest.skip(j - start) =~= s@.skip(j as int));
            }
            out.push(token);
            proof {
                assert(tokens_of(s@) =~= out.deep_view() + tokens_of(s@.skip(j as int)));
            }
            i = j;
        }
    }
    proof {
        assert(s@.skip(n as int) =~= Seq::<char>::empty());
        assert(tokens_of(s@) =~= out.deep_view());
    }
    out
}

/// Removes leading and trailing blanks from `s`.
pub fn trim(s: &str) -> (r: String)
    ensures
        r@ == trimmed(s@),
{
    let n = s.unicode_len();
    let mut i: usize = 0;
    while i < n && blank_char(s.get_char(i))
        invariant
            n == s@.len(),
            i <= n,
            forall|m: int| 0 <= m < i ==> is_blank_char(s@[m]),
        decreases n - i,
    {
        i = i + 1;
    }
    proof {
        lemma_trim_left_skip(s@, i as int);
    }
    if i == n {
        proof {
            assert(s@.skip(n as int) =~= Seq::<char>::empty());
            assert(trim_right(trim_left(s@)) =~= Seq::<char>::empty());
        }
        String::new()
    } else {
        let mut j: usize = n;
        while j > i && blank_char(s.get_char(j - 1))
            invariant
                n == s@.len(),
                i <= j <= n,
                forall|m: int| j <= m < n ==> is_blank_char(s@[m]),
            decreases j,
        {
            j = j - 1;
        }
        proof {
            let rest = s@.skip(i as int);
            lemma_trim_right_take(rest, j - i);
            assert(rest.take(j - i) =~= s@.subrange(i as int, j as int));
        }
        s.substring_char(i, j).to_owned()
    }
}

} // verus!
