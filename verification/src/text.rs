use vstd::prelude::*;

verus! {

/// The characters of `s`, in order.
pub fn chars_of(s: &str) -> (r: Vec<char>)
    ensures
        r@ == s@,
{
    let mut out: Vec<char> = Vec::new();
    for c in it: s.chars()
        invariant
            out@ == it.seq().take(it.index() as int),
    {
        out.push(c);
    }
    out
}

/// `String::push`: appends one character.
#[verifier::external_body]
pub(crate) fn push_char(s: &mut String, c: char)
    ensures
        final(s)@ == old(s)@.push(c),
{
    s.push(c);
}

/// The character of a digit below sixteen, lower-case for ten and up.
pub open spec fn digit_char(d: nat) -> char {
    if d < 10 {
        (48 + d) as char
    } else {
        (87 + d) as char
    }
}

/// Digits of `n` in base `base` (2 to 16), most significant first, without leading zeros.
pub open spec fn digits_text(n: nat, base: nat) -> Seq<char>
    decreases n,
{
    if n < base || base < 2 {
        seq![digit_char(n)]
    } else {
        proof {
            assert(n / base < n) by (nonlinear_arith)
                requires
                    n >= base,
                    base >= 2,
            ;
        }
        digits_text(n / base, base).push(digit_char(n % base))
    }
}

/// Decimal text of `n`.
pub open spec fn decimal_text(n: nat) -> Seq<char> {
    digits_text(n, 10)
}

/// Lower-case hexadecimal text of `n`.
pub open spec fn hex_text(n: nat) -> Seq<char> {
    digits_text(n, 16)
}

fn digit_of(d: u64) -> (c: char)
    requires
        d < 16,
    ensures
        c == digit_char(d as nat),
{
    if d < 10 {
        ((48 + d) as u8) as char
    } else {
        ((87 + d) as u8) as char
    }
}

/// Appends the digits of `n` in base `base`.
pub fn append_digits(out: &mut String, n: u64, base: u64)
    requires
        2 <= base <= 16,
    ensures
        final(out)@ == old(out)@ + digits_text(n as nat, base as nat),
    decreases n,
{
    let ghost start = out@;
    if n >= base {
        assert(n / base < n) by (nonlinear_arith)
            requires
                n >= base,
                base >= 2,
        ;
        append_digits(out, n / base, base);
    }
    let d = n % base;
    push_char(out, digit_of(d));
    if n < base {
        assert(n % base == n) by (nonlinear_arith)
            requires
                n < base,
        ;
        assert(out@ =~= start + digits_text(n as nat, base as nat));
    } else {
        assert(out@ =~= start + digits_text(n as nat, base as nat));
    }
}

/// Decimal text of `n`, as Rust's `{}` formats it.
pub fn format_decimal(n: u64) -> (r: String)
    ensures
        r@ == decimal_text(n as nat),
{
    let mut out = String::new();
    append_digits(&mut out, n, 10);
    out
}

/// Lower-case hexadecimal text of `n`, as Rust's `{:x}` formats it.
pub fn format_hex(n: u64) -> (r: String)
    ensures
        r@ == hex_text(n as nat),
{
    let mut out = String::new();
    append_digits(&mut out, n, 16);
    out
}

/// `pat` occurs in `s` starting at position `i`.
pub open spec fn occurs_at(s: Seq<char>, pat: Seq<char>, i: int) -> bool {
    0 <= i && i + pat.len() <= s.len() && s.subrange(i, i + pat.len()) == pat
}

/// `pat` occurs somewhere in `s`.
pub open spec fn has_infix(s: Seq<char>, pat: Seq<char>) -> bool {
    exists|i: int| occurs_at(s, pat, i)
}

/// `s` starts with `pat`.
pub open spec fn has_prefix(s: Seq<char>, pat: Seq<char>) -> bool {
    occurs_at(s, pat, 0)
}

/// `s` ends with `pat`.
pub open spec fn has_suffix(s: Seq<char>, pat: Seq<char>) -> bool {
    occurs_at(s, pat, s.len() - pat.len())
}

/// Whether `pat` occurs in `s` at position `i`.
pub fn chars_occur_at(s: &Vec<char>, pat: &Vec<char>, i: usize) -> (r: bool)
    ensures
        r == occurs_at(s@, pat@, i as int),
{
    if i > s.len() || pat.len() > s.len() - i {
        return false;
    }
    let mut k: usize = 0;
    while k < pat.len()
        invariant
            k <= pat.len(),
            i + pat.len() <= s.len(),
            forall|j: int| 0 <= j < k ==> s@[i + j] == pat@[j],
        decreases pat.len() - k,
    {
        if s[i + k] != pat[k] {
            assert(s@.subrange(i as int, i + pat.len())[k as int] != pat@[k as int]);
            return false;
        }
        k = k + 1;
    }
    assert(s@.subrange(i as int, i + pat.len()) =~= pat@);
    true
}

/// Whether `pat` occurs in `s`.
pub fn chars_contain(s: &Vec<char>, pat: &Vec<char>) -> (r: bool)
    ensures
        r == has_infix(s@, pat@),
{
    if pat.len() > s.len() {
        return false;
    }
    let last = s.len() - pat.len();
    let mut i: usize = 0;
    loop
        invariant
            pat.len() <= s.len(),
            last == s.len() - pat.len(),
            i <= last,
            forall|j: int| 0 <= j < i ==> !occurs_at(s@, pat@, j),
        decreases last - i,
    {
        if chars_occur_at(s, pat, i) {
            return true;
        }
        if i == last {
            assert forall|j: int| !occurs_at(s@, pat@, j) by {
                if 0 <= j < i {
                }
            }
            return false;
        }
        i = i + 1;
    }
}

/// Whether `pat` occurs in `s`.
pub fn str_contains(s: &str, pat: &str) -> (r: bool)
    ensures
        r == has_infix(s@, pat@),
{
    chars_contain(&chars_of(s), &chars_of(pat))
}

/// Whether `s` starts with `pat`.
pub fn str_starts_with(s: &str, pat: &str) -> (r: bool)
    ensures
        r == has_prefix(s@, pat@),
{
    chars_occur_at(&chars_of(s), &chars_of(pat), 0)
}

/// Whether `s` ends with `pat`.
pub fn str_ends_with(s: &str, pat: &str) -> (r: bool)
    ensures
        r == has_suffix(s@, pat@),
{
    let sc = chars_of(s);
    let pc = chars_of(pat);
    if pc.len() > sc.len() {
        return false;
    }
    chars_occur_at(&sc, &pc, sc.len() - pc.len())
}

/// The pieces of `s` between occurrences of `sep`, as `str::split` gives them:
/// one more piece than there are separators, empty pieces kept.
pub open spec fn split_text(s: Seq<char>, sep: char) -> Seq<Seq<char>>
    decreases s.len(),
{
    if s.len() == 0 {
        seq![Seq::empty()]
    } else {
        let init = split_text(s.drop_last(), sep);
        if s.last() == sep {
            init.push(Seq::empty())
        } else {
            init.update(init.len() - 1, init.last().push(s.last()))
        }
    }
}

/// `split_text` always gives at least one piece.
pub proof fn lemma_split_nonempty(s: Seq<char>, sep: char)
    ensures
        split_text(s, sep).len() >= 1,
    decreases s.len(),
{
    if s.len() > 0 {
        lemma_split_nonempty(s.drop_last(), sep);
    }
}

/// The texts of a sequence of strings.
pub open spec fn texts(v: Seq<String>) -> Seq<Seq<char>> {
    v.map_values(|t: String| t@)
}

/// Splits `s` at each `sep`, as `str::split` with a character does.
pub fn split_str(s: &str, sep: char) -> (r: Vec<String>)
    ensures
        texts(r@) == split_text(s@, sep),
{
    let cs = chars_of(s);
    let mut parts: Vec<String> = Vec::new();
    let mut current = String::new();
    let mut i: usize = 0;
    assert(cs@.take(0) =~= Seq::<char>::empty());
    while i < cs.len()
        invariant
            i <= cs.len(),
            cs@ == s@,
            texts(parts@).push(current@) == split_text(cs@.take(i as int), sep),
        decreases cs.len() - i,
    {
        let c = cs[i];
        proof {
            lemma_split_nonempty(cs@.take(i as int), sep);
            assert(cs@.take(i + 1).drop_last() =~= cs@.take(i as int));
            assert(cs@.take(i + 1).last() == c);
        }
        let ghost before_parts = texts(parts@);
        let ghost before_current = current@;
        if c == sep {
            let done = current;
            parts.push(done);
            current = String::new();
            proof {
                assert(texts(parts@) =~= before_parts.push(before_current));
                assert(texts(parts@).push(current@) =~= split_text(cs@.take(i + 1), sep));
            }
        } else {
            push_char(&mut current, c);
            proof {
                assert(texts(parts@).push(current@) =~= split_text(cs@.take(i + 1), sep));
            }
        }
        i = i + 1;
    }
    assert(cs@.take(i as int) =~= cs@);
    let ghost before_parts = texts(parts@);
    let ghost last = current@;
    parts.push(current);
    assert(texts(parts@) =~= before_parts.push(last));
    parts
}

/// Position of the last `c` in `s`, or -1 when there is none.
pub open spec fn last_index_of(s: Seq<char>, c: char) -> int
    decreases s.len(),
{
    if s.len() == 0 {
        -1
    } else if s.last() == c {
        s.len() - 1
    } else {
        last_index_of(s.drop_last(), c)
    }
}

/// `last_index_of` lies within `s`, or is -1.
pub proof fn lemma_last_index_bounds(s: Seq<char>, c: char)
    ensures
        -1 <= last_index_of(s, c) < s.len(),
        last_index_of(s, c) >= 0 ==> s[last_index_of(s, c)] == c,
    decreases s.len(),
{
    if s.len() > 0 {
        lemma_last_index_bounds(s.drop_last(), c);
    }
}

/// Position of the last `c` in `s`.
pub fn find_last(s: &Vec<char>, c: char) -> (r: Option<usize>)
    ensures
        match r {
            Some(i) => i as int == last_index_of(s@, c),
            None => last_index_of(s@, c) == -1,
        },
{
    let mut i: usize = s.len();
    assert(s@.take(i as int) =~= s@);
    while i > 0
        invariant
            i <= s.len(),
            last_index_of(s@, c) == last_index_of(s@.take(i as int), c),
        decreases i,
    {
        assert(s@.take(i as int).drop_last() =~= s@.take(i - 1));
        if s[i - 1] == c {
            return Some(i - 1);
        }
        i = i - 1;
    }
    None
}

/// The characters of `s` from position `from` on, as a string.
pub fn string_from(s: &Vec<char>, from: usize) -> (r: String)
    requires
        from <= s.len(),
    ensures
        r@ == s@.subrange(from as int, s.len() as int),
{
    let mut out = String::new();
    let mut i = from;
    while i < s.len()
        invariant
            from <= i <= s.len(),
            out@ == s@.subrange(from as int, i as int),
        decreases s.len() - i,
    {
        push_char(&mut out, s[i]);
        i = i + 1;
        assert(out@ =~= s@.subrange(from as int, i as int));
    }
    out
}

/// The characters of `s` from `from` up to `to`, as a string.
pub fn string_between(s: &Vec<char>, from: usize, to: usize) -> (r: String)
    requires
        from <= to <= s.len(),
    ensures
        r@ == s@.subrange(from as int, to as int),
{
    let mut out = String::new();
    let mut i = from;
    while i < to
        invariant
            from <= i <= to <= s.len(),
            out@ == s@.subrange(from as int, i as int),
        decreases to - i,
    {
        push_char(&mut out, s[i]);
        i = i + 1;
        assert(out@ =~= s@.subrange(from as int, i as int));
    }
    out
}

/// Whether two strings have the same text.
pub fn same_text(a: &str, b: &str) -> (r: bool)
    ensures
        r == (a@ == b@),
{
    let x = String::from_str(a);
    let y = String::from_str(b);
    x == y
}

/// Whether `c` is white space, as `char::is_whitespace` says (Unicode's
/// `White_Space` property).
pub open spec fn is_space(c: char) -> bool {
    ||| c == '\t'
    ||| c == '\n'
    ||| c == '\u{0B}'
    ||| c == '\u{0C}'
    ||| c == '\r'
    ||| c == ' '
    ||| c == '\u{85}'
    ||| c == '\u{A0}'
    ||| c == '\u{1680}'
    ||| ('\u{2000}' <= c && c <= '\u{200A}')
    ||| c == '\u{2028}'
    ||| c == '\u{2029}'
    ||| c == '\u{202F}'
    ||| c == '\u{205F}'
    ||| c == '\u{3000}'
}

/// Whether `c` is white space.
pub fn char_is_space(c: char) -> (r: bool)
    ensures
        r == is_space(c),
{
    c == '\t' || c == '\n' || c == '\u{0B}' || c == '\u{0C}' || c == '\r' || c == ' ' || c == '\u{85}'
        || c == '\u{A0}' || c == '\u{1680}' || ('\u{2000}' <= c && c <= '\u{200A}') || c == '\u{2028}'
        || c == '\u{2029}' || c == '\u{202F}' || c == '\u{205F}' || c == '\u{3000}'
}

/// Number of white-space characters at the start of `s`.
pub open spec fn leading_space(s: Seq<char>) -> nat
    decreases s.len(),
{
    if s.len() > 0 && is_space(s[0]) {
        1 + leading_space(s.drop_first())
    } else {
        0
    }
}

/// Number of white-space characters at the end of `s`.
pub open spec fn trailing_space(s: Seq<char>) -> nat
    decreases s.len(),
{
    if s.len() > 0 && is_space(s.last()) {
        1 + trailing_space(s.drop_last())
    } else {
        0
    }
}

/// `s` without its leading white space.
pub open spec fn trim_start_text(s: Seq<char>) -> Seq<char> {
    s.subrange(leading_space(s) as int, s.len() as int)
}

/// `s` without its trailing white space.
pub open spec fn trim_end_text(s: Seq<char>) -> Seq<char> {
    s.subrange(0, s.len() - trailing_space(s))
}

/// `s` without white space at either end, as `str::trim` gives it.
pub open spec fn trim_text(s: Seq<char>) -> Seq<char> {
    trim_end_text(trim_start_text(s))
}

proof fn lemma_leading_space(s: Seq<char>, i: int)
    requires
        0 <= i <= s.len(),
        forall|j: int| 0 <= j < i ==> is_space(#[trigger] s[j]),
        i == s.len() || !is_space(s[i]),
    ensures
        leading_space(s) == i,
    decreases i,
{
    if i > 0 {
        let t = s.drop_first();
        assert forall|j: int| 0 <= j < i - 1 implies is_space(#[trigger] t[j]) by {
            assert(t[j] == s[j + 1]);
        }
        if i - 1 < t.len() {
            assert(t[i - 1] == s[i]);
        }
        lemma_leading_space(t, i - 1);
    }
}

proof fn lemma_trailing_space(s: Seq<char>, k: int)
    requires
        0 <= k <= s.len(),
        forall|j: int| s.len() - k <= j < s.len() ==> is_space(#[trigger] s[j]),
        k == s.len() || !is_space(s[s.len() - k - 1]),
    ensures
        trailing_space(s) == k,
    decreases k,
{
    if k > 0 {
        let t = s.drop_last();
        assert forall|j: int| t.len() - (k - 1) <= j < t.len() implies is_space(#[trigger] t[j]) by {
            assert(t[j] == s[j]);
        }
        if k - 1 < t.len() {
            assert(t[t.len() - (k - 1) - 1] == s[s.len() - k - 1]);
        }
        lemma_trailing_space(t, k - 1);
    }
}

/// `s` without white space at either end.
pub fn trim_str(s: &str) -> (r: String)
    ensures
        r@ == trim_text(s@),
{
    let cs = chars_of(s);
    let mut i: usize = 0;
    while i < cs.len() && char_is_space(cs[i])
        invariant
            i <= cs.len(),
            forall|j: int| 0 <= j < i ==> is_space(#[trigger] cs@[j]),
        decreases cs.len() - i,
    {
        i = i + 1;
    }
    proof {
        lemma_leading_space(cs@, i as int);
    }
    let ghost t = cs@.subrange(i as int, cs.len() as int);
    let mut e: usize = cs.len();
    while e > i && char_is_space(cs[e - 1])
        invariant
            i <= e <= cs.len(),
            t == cs@.subrange(i as int, cs.len() as int),
            forall|j: int| e <= j < cs.len() ==> is_space(#[trigger] cs@[j]),
        decreases e - i,
    {
        e = e - 1;
    }
    proof {
        assert forall|j: int| t.len() - (cs.len() - e) <= j < t.len() implies is_space(#[trigger] t[j]) by {
            assert(t[j] == cs@[i + j]);
        }
        if e > i {
            assert(t[t.len() - (cs.len() - e) - 1] == cs@[e - 1]);
        }
        lemma_trailing_space(t, (cs.len() - e) as int);
    }
    let r = string_between(&cs, i, e);
    assert(r@ =~= trim_text(s@));
    r
}

/// The words of `s` after the current word `cur`: runs of characters that are
/// not white space, in order.
pub open spec fn words_after(s: Seq<char>, cur: Seq<char>) -> Seq<Seq<char>>
    decreases s.len(),
{
    if s.len() == 0 {
        if cur.len() == 0 {
            Seq::empty()
        } else {
            seq![cur]
        }
    } else if is_space(s[0]) {
        if cur.len() == 0 {
            words_after(s.drop_first(), Seq::empty())
        } else {
            seq![cur] + words_after(s.drop_first(), Seq::empty())
        }
    } else {
        words_after(s.drop_first(), cur.push(s[0]))
    }
}

/// The words of `s`, as `str::split_whitespace` gives them.
pub open spec fn words_text(s: Seq<char>) -> Seq<Seq<char>> {
    words_after(s, Seq::empty())
}

/// The words of `s`, each as its characters.
pub fn words_of(s: &str) -> (r: Vec<Vec<char>>)
    ensures
        r@.map_values(|w: Vec<char>| w@) == words_text(s@),
{
    let cs = chars_of(s);
    let mut out: Vec<Vec<char>> = Vec::new();
    let mut cur: Vec<char> = Vec::new();
    let mut i: usize = 0;
    assert(cs@.skip(0) =~= cs@);
    assert(out@.map_values(|w: Vec<char>| w@) + words_after(cs@, cur@) =~= words_after(cs@, cur@));
    while i < cs.len()
        invariant
            i <= cs.len(),
            cs@ == s@,
            out@.map_values(|w: Vec<char>| w@) + words_after(cs@.skip(i as int), cur@) == words_text(s@),
        decreases cs.len() - i,
    {
        let ghost rest = cs@.skip(i as int);
        assert(rest.drop_first() =~= cs@.skip(i + 1));
        let c = cs[i];
        if char_is_space(c) {
            if cur.len() > 0 {
                let ghost before = out@.map_values(|w: Vec<char>| w@);
                let w = cur;
                out.push(w);
                cur = Vec::new();
                assert(out@.map_values(|w: Vec<char>| w@) =~= before.push(w@));
                assert(before + (seq![w@] + words_after(rest.drop_first(), Seq::empty()))
                    =~= before.push(w@) + words_after(rest.drop_first(), Seq::empty()));
            }
            assert(cur@ =~= Seq::<char>::empty());
        } else {
            cur.push(c);
        }
        i = i + 1;
    }
    if cur.len() > 0 {
        let ghost before = out@.map_values(|w: Vec<char>| w@);
        out.push(cur);
        assert(out@.map_values(|w: Vec<char>| w@) =~= before.push(out@[out.len() - 1]@));
        assert(before + seq![out@[out.len() - 1]@] =~= before.push(out@[out.len() - 1]@));
    } else {
        assert(out@.map_values(|w: Vec<char>| w@) + Seq::<Seq<char>>::empty() =~= out@.map_values(|w: Vec<char>| w@));
    }
    out
}

/// The lines of `s`, as `str::lines` gives them: split at `\n`, one `\r` before a
/// `\n` dropped, and no empty last line after a final `\n`.
pub open spec fn lines_text(s: Seq<char>) -> Seq<Seq<char>> {
    let pieces = split_text(s, '\n');
    let body = strip_cr_all(pieces.drop_last());
    if pieces.last().len() == 0 {
        body
    } else {
        body.push(pieces.last())
    }
}

/// Each of `ps` without one trailing `\r`.
pub open spec fn strip_cr_all(ps: Seq<Seq<char>>) -> Seq<Seq<char>> {
    ps.map_values(|p: Seq<char>| strip_cr(p))
}

/// `p` without one trailing `\r`.
pub open spec fn strip_cr(p: Seq<char>) -> Seq<char> {
    if p.len() > 0 && p.last() == '\r' {
        p.drop_last()
    } else {
        p
    }
}

/// The lines of `s`.
pub fn lines_of(s: &str) -> (r: Vec<String>)
    ensures
        texts(r@) == lines_text(s@),
{
    let pieces = split_str(s, '\n');
    proof {
        lemma_split_nonempty(s@, '\n');
    }
    let ghost pv = texts(pieces@);
    let mut out: Vec<String> = Vec::new();
    let mut i: usize = 0;
    while i + 1 < pieces.len()
        invariant
            pieces.len() >= 1,
            i + 1 <= pieces.len(),
            pv == texts(pieces@),
            pv == split_text(s@, '\n'),
            texts(out@) == strip_cr_all(pv.take(i as int)),
        decreases pieces.len() - i,
    {
        let cs = chars_of(pieces[i].as_str());
        let line = if cs.len() > 0 && cs[cs.len() - 1] == '\r' {
            string_between(&cs, 0, cs.len() - 1)
        } else {
            string_between(&cs, 0, cs.len())
        };
        proof {
            assert(pieces@[i as int]@ == pv[i as int]);
            if cs.len() > 0 && cs@[cs.len() - 1] == '\r' {
                assert(line@ =~= strip_cr(pv[i as int]));
            } else {
                assert(line@ =~= strip_cr(pv[i as int]));
            }
        }
        let ghost before = texts(out@);
        out.push(line);
        i = i + 1;
        assert(texts(out@) =~= before.push(strip_cr(pv[i - 1])));
        assert(strip_cr_all(pv.take(i as int)) =~= strip_cr_all(pv.take(i - 1)).push(strip_cr(pv[i - 1])));
    }
    assert(pv.take(i as int) =~= pv.drop_last());
    let last = &pieces[pieces.len() - 1];
    if last.unicode_len() > 0 {
        let ghost before = texts(out@);
        out.push(last.clone());
        assert(texts(out@) =~= before.push(pv.last()));
    }
    out
}

/// `s` with each occurrence of `pat` (non-empty), found left to right without
/// overlap, replaced by `rep`, as `str::replace` does.
pub open spec fn replace_all(s: Seq<char>, pat: Seq<char>, rep: Seq<char>) -> Seq<char>
    decreases s.len(),
{
    if pat.len() == 0 || s.len() < pat.len() {
        s
    } else if s.take(pat.len() as int) == pat {
        rep + replace_all(s.skip(pat.len() as int), pat, rep)
    } else {
        seq![s[0]] + replace_all(s.skip(1), pat, rep)
    }
}

/// Replacing a pattern that does not occur leaves the text as it is.
pub proof fn lemma_replace_absent(s: Seq<char>, pat: Seq<char>, rep: Seq<char>)
    requires
        pat.len() > 0,
        !has_infix(s, pat),
    ensures
        replace_all(s, pat, rep) == s,
    decreases s.len(),
{
    if s.len() >= pat.len() {
        assert(!occurs_at(s, pat, 0));
        assert(s.subrange(0, pat.len() as int) =~= s.take(pat.len() as int));
        let t = s.skip(1);
        assert(!has_infix(t, pat)) by {
            if has_infix(t, pat) {
                let i = choose|i: int| occurs_at(t, pat, i);
                assert(t.subrange(i, i + pat.len()) =~= s.subrange(i + 1, i + 1 + pat.len()));
                assert(occurs_at(s, pat, i + 1));
            }
        }
        lemma_replace_absent(t, pat, rep);
        assert(seq![s[0]] + t =~= s);
    }
}

/// `s` with each occurrence of `pat` (non-empty) replaced by `rep`.
pub fn replace_str(s: &str, pat: &str, rep: &str) -> (r: String)
    requires
        pat@.len() > 0,
    ensures
        r@ == replace_all(s@, pat@, rep@),
{
    let cs = chars_of(s);
    let ps = chars_of(pat);
    let mut out = String::new();
    let mut i: usize = 0;
    assert(cs@.skip(0) =~= cs@);
    while i < cs.len()
        invariant
            i <= cs.len(),
            cs@ == s@,
            ps@ == pat@,
            ps.len() > 0,
            replace_all(s@, pat@, rep@) == out@ + replace_all(cs@.skip(i as int), pat@, rep@),
        decreases cs.len() - i,
    {
        let ghost rest = cs@.skip(i as int);
        if chars_occur_at(&cs, &ps, i) {
            proof {
                assert(rest.take(ps.len() as int) =~= cs@.subrange(i as int, i + ps.len()));
                assert(rest.skip(ps.len() as int) =~= cs@.skip(i + ps.len()));
            }
            out.append(rep);
            i = i + ps.len();
            assert(replace_all(s@, pat@, rep@) =~= out@ + replace_all(cs@.skip(i as int), pat@, rep@));
        } else {
            proof {
                if rest.len() >= ps.len() {
                    assert(rest.take(ps.len() as int) =~= cs@.subrange(i as int, i + ps.len()));
                }
                assert(rest.skip(1) =~= cs@.skip(i + 1));
                assert(rest[0] == cs@[i as int]);
            }
            push_char(&mut out, cs[i]);
            i = i + 1;
            assert(replace_all(s@, pat@, rep@) =~= out@ + replace_all(cs@.skip(i as int), pat@, rep@));
        }
    }
    assert(cs@.skip(i as int) =~= Seq::<char>::empty());
    assert(out@ =~= out@ + Seq::<char>::empty());
    out
}

/// No two of `entries` share a key.
pub open spec fn keys_distinct(entries: Seq<(String, String)>) -> bool {
    forall|i: int, j: int| 0 <= i < j < entries.len() ==> entries[i].0@ != entries[j].0@
}

/// The value recorded for `key` among `entries`, if any.
pub open spec fn entry_value(entries: Seq<(String, String)>, key: Seq<char>) -> Option<Seq<char>> {
    if exists|i: int| 0 <= i < entries.len() && entries[i].0@ == key {
        Some(entries[choose|i: int| 0 <= i < entries.len() && entries[i].0@ == key].1@)
    } else {
        None
    }
}

/// The keys and values of `entries`, as text.
pub open spec fn entry_texts(entries: Seq<(String, String)>) -> Seq<(Seq<char>, Seq<char>)> {
    entries.map_values(|e: (String, String)| (e.0@, e.1@))
}

/// Records `value` for `key`: in place of an earlier value, else at the end.
pub fn insert_entry(entries: &mut Vec<(String, String)>, key: &str, value: &str)
    requires
        keys_distinct(old(entries)@),
    ensures
        keys_distinct(final(entries)@),
        entry_value(final(entries)@, key@) == Some(value@),
        forall|k: Seq<char>| k != key@ ==> entry_value(final(entries)@, k) == entry_value(old(entries)@, k),
        match entry_value(old(entries)@, key@) {
            Some(_) => final(entries)@.len() == old(entries)@.len(),
            None => entry_texts(final(entries)@) == entry_texts(old(entries)@).push((key@, value@)),
        },
{
    let ghost old_entries = entries@;
    let k = String::from_str(key);
    let mut i: usize = 0;
    while i < entries.len()
        invariant
            i <= entries.len(),
            k@ == key@,
            keys_distinct(old_entries),
            entries@ == old_entries,
            old_entries == old(entries)@,
            forall|j: int| 0 <= j < i ==> entries@[j].0@ != key@,
        decreases entries.len() - i,
    {
        if entries[i].0 == k {
            let ghost idx = i as int;
            entries.set(i, (k, String::from_str(value)));
            proof {
                let e = entries@;
                assert(e[idx].0@ == key@);
                assert forall|a: int, b: int| 0 <= a < b < e.len() implies e[a].0@ != e[b].0@ by {
                    if a != idx && b != idx {
                        assert(e[a] == old_entries[a] && e[b] == old_entries[b]);
                    } else if a == idx {
                        assert(e[b] == old_entries[b]);
                    } else {
                        assert(e[a] == old_entries[a]);
                    }
                }
                let c = choose|c: int| 0 <= c < e.len() && e[c].0@ == key@;
                assert(c == idx);
                assert(old_entries[idx].0@ == key@);
                assert forall|kk: Seq<char>| kk != key@ implies entry_value(e, kk) == entry_value(old_entries, kk) by {
                    if exists|c: int| 0 <= c < e.len() && e[c].0@ == kk {
                        let c1 = choose|c: int| 0 <= c < e.len() && e[c].0@ == kk;
                        assert(c1 != idx);
                        assert(old_entries[c1].0@ == kk);
                        let c2 = choose|c: int| 0 <= c < old_entries.len() && old_entries[c].0@ == kk;
                        assert(c1 == c2);
                    } else {
                        assert forall|c: int| 0 <= c < old_entries.len() implies old_entries[c].0@ != kk by {
                            if c != idx {
                                assert(e[c] == old_entries[c]);
                            }
                        }
                    }
                }
            }
            return;
        }
        i = i + 1;
    }
    entries.push((k, String::from_str(value)));
    proof {
        let e = entries@;
        let n = old_entries.len() as int;
        assert forall|a: int, b: int| 0 <= a < b < e.len() implies e[a].0@ != e[b].0@ by {
            if b < n {
                assert(e[a] == old_entries[a] && e[b] == old_entries[b]);
            } else {
                assert(e[a] == old_entries[a]);
            }
        }
        assert(e[n].0@ == key@);
        let c = choose|c: int| 0 <= c < e.len() && e[c].0@ == key@;
        assert(c == n);
        assert forall|kk: Seq<char>| kk != key@ implies entry_value(e, kk) == entry_value(old_entries, kk) by {
            if exists|c: int| 0 <= c < e.len() && e[c].0@ == kk {
                let c1 = choose|c: int| 0 <= c < e.len() && e[c].0@ == kk;
                assert(c1 != n);
                assert(old_entries[c1].0@ == kk);
                let c2 = choose|c: int| 0 <= c < old_entries.len() && old_entries[c].0@ == kk;
                assert(c1 == c2);
            } else {
                assert forall|c: int| 0 <= c < old_entries.len() implies old_entries[c].0@ != kk by {
                    assert(e[c] == old_entries[c]);
                }
            }
        }
        assert(entry_texts(e) =~= entry_texts(old_entries).push((key@, value@)));
    }
}

/// The value recorded for `key`, if any.
pub fn lookup_entry<'a>(entries: &'a Vec<(String, String)>, key: &str) -> (r: Option<&'a str>)
    requires
        keys_distinct(entries@),
    ensures
        match entry_value(entries@, key@) {
            Some(v) => r matches Some(x) && x@ == v,
            None => r is None,
        },
{
    let k = String::from_str(key);
    let mut i: usize = 0;
    while i < entries.len()
        invariant
            i <= entries.len(),
            k@ == key@,
            keys_distinct(entries@),
            forall|j: int| 0 <= j < i ==> entries@[j].0@ != key@,
        decreases entries.len() - i,
    {
        if entries[i].0 == k {
            proof {
                let c = choose|c: int| 0 <= c < entries@.len() && entries@[c].0@ == key@;
                if c != i {
                    assert(entries@[c].0@ == entries@[i as int].0@);
                }
            }
            return Some(entries[i].1.as_str());
        }
        i = i + 1;
    }
    None
}

/// `c` in lower case, for ASCII letters; other characters unchanged.
pub open spec fn ascii_lower(c: char) -> char {
    if 'A' <= c && c <= 'Z' {
        ((c as u32) + 32) as char
    } else {
        c
    }
}

/// `s` with its ASCII letters in lower case.
pub open spec fn ascii_lower_text(s: Seq<char>) -> Seq<char> {
    s.map_values(|c: char| ascii_lower(c))
}

/// `c` in lower case, for ASCII letters.
pub fn char_to_ascii_lower(c: char) -> (r: char)
    ensures
        r == ascii_lower(c),
{
    if 'A' <= c && c <= 'Z' {
        ((c as u8) + 32) as char
    } else {
        c
    }
}

/// `s` with its ASCII letters in lower case.
pub fn str_to_ascii_lower(s: &str) -> (r: String)
    ensures
        r@ == ascii_lower_text(s@),
{
    let cs = chars_of(s);
    let mut out = String::new();
    let mut i: usize = 0;
    while i < cs.len()
        invariant
            i <= cs.len(),
            cs@ == s@,
            out@ == ascii_lower_text(cs@.take(i as int)),
        decreases cs.len() - i,
    {
        push_char(&mut out, char_to_ascii_lower(cs[i]));
        i = i + 1;
        assert(out@ =~= ascii_lower_text(cs@.take(i as int)));
    }
    assert(cs@.take(i as int) =~= cs@);
    out
}

/// How `{:?}` writes character `c` inside a string: quotes, backslashes and the
/// common control characters escaped.
pub open spec fn debug_char(c: char) -> Seq<char> {
    if c == '"' {
        seq!['\\', '"']
    } else if c == '\\' {
        seq!['\\', '\\']
    } else if c == '\n' {
        seq!['\\', 'n']
    } else if c == '\r' {
        seq!['\\', 'r']
    } else if c == '\t' {
        seq!['\\', 't']
    } else if c == '\0' {
        seq!['\\', '0']
    } else {
        seq![c]
    }
}

/// The characters of `s` as `{:?}` writes them inside a string.
pub open spec fn debug_chars(s: Seq<char>) -> Seq<char>
    decreases s.len(),
{
    if s.len() == 0 {
        Seq::empty()
    } else {
        debug_chars(s.drop_last()) + debug_char(s.last())
    }
}

/// A string as `{:?}` writes it: quoted and escaped.
pub open spec fn debug_string(s: Seq<char>) -> Seq<char> {
    seq!['"'] + debug_chars(s) + seq!['"']
}

/// The items of `parts`, each as `{:?}` writes a string, separated by `, `.
pub open spec fn debug_items(parts: Seq<Seq<char>>) -> Seq<char>
    decreases parts.len(),
{
    if parts.len() == 0 {
        Seq::empty()
    } else if parts.len() == 1 {
        debug_string(parts[0])
    } else {
        debug_items(parts.drop_last()) + seq![',', ' '] + debug_string(parts.last())
    }
}

/// A list of strings as `{:?}` writes it.
pub open spec fn debug_list(parts: Seq<Seq<char>>) -> Seq<char> {
    seq!['['] + debug_items(parts) + seq![']']
}

fn append_debug_string(out: &mut String, s: &str)
    ensures
        final(out)@ == old(out)@ + debug_string(s@),
{
    let cs = chars_of(s);
    let ghost start = out@;
    push_char(out, '"');
    let mut i: usize = 0;
    while i < cs.len()
        invariant
            i <= cs.len(),
            cs@ == s@,
            out@ == start + seq!['"'] + debug_chars(cs@.take(i as int)),
        decreases cs.len() - i,
    {
        let c = cs[i];
        let ghost before = out@;
        if c == '"' {
            push_char(out, '\\');
            push_char(out, '"');
        } else if c == '\\' {
            push_char(out, '\\');
            push_char(out, '\\');
        } else if c == '\n' {
            push_char(out, '\\');
            push_char(out, 'n');
        } else if c == '\r' {
            push_char(out, '\\');
            push_char(out, 'r');
        } else if c == '\t' {
            push_char(out, '\\');
            push_char(out, 't');
        } else if c == '\0' {
            push_char(out, '\\');
            push_char(out, '0');
        } else {
            push_char(out, c);
        }
        assert(out@ =~= before + debug_char(c));
        assert(cs@.take(i + 1).drop_last() =~= cs@.take(i as int));
        i = i + 1;
    }
    assert(cs@.take(i as int) =~= cs@);
    push_char(out, '"');
    assert(out@ =~= start + debug_string(s@));
}

/// A list of strings as `{:?}` writes it.
pub fn format_debug_list(parts: &Vec<String>) -> (r: String)
    ensures
        r@ == debug_list(texts(parts@)),
{
    let ghost pv = texts(parts@);
    let mut out = String::new();
    push_char(&mut out, '[');
    let mut i: usize = 0;
    assert(pv.take(0) =~= Seq::<Seq<char>>::empty());
    while i < parts.len()
        invariant
            i <= parts.len(),
            pv == texts(parts@),
            out@ == seq!['['] + debug_items(pv.take(i as int)),
        decreases parts.len() - i,
    {
        let ghost before = out@;
        if i > 0 {
            push_char(&mut out, ',');
            push_char(&mut out, ' ');
        }
        append_debug_string(&mut out, parts[i].as_str());
        assert(pv.take(i + 1).drop_last() =~= pv.take(i as int));
        if i == 0 {
            assert(out@ =~= seq!['['] + debug_items(pv.take(1)));
        } else {
            assert(out@ =~= seq!['['] + debug_items(pv.take(i + 1)));
        }
        i = i + 1;
    }
    assert(pv.take(i as int) =~= pv);
    push_char(&mut out, ']');
    assert(out@ =~= debug_list(pv));
    out
}

/// Whether `a` comes no later than `b` in lexicographic order of characters
/// (the order of `String`, since UTF-8 keeps the order of code points).
pub open spec fn text_le(a: Seq<char>, b: Seq<char>) -> bool
    decreases a.len(),
{
    if a.len() == 0 {
        true
    } else if b.len() == 0 {
        false
    } else if a[0] != b[0] {
        a[0] < b[0]
    } else {
        text_le(a.drop_first(), b.drop_first())
    }
}

/// Every text comes no later than itself.
pub proof fn lemma_text_le_reflexive(a: Seq<char>)
    ensures
        text_le(a, a),
    decreases a.len(),
{
    if a.len() > 0 {
        lemma_text_le_reflexive(a.drop_first());
    }
}

/// Of two texts, one comes no later than the other.
pub proof fn lemma_text_le_total(a: Seq<char>, b: Seq<char>)
    ensures
        text_le(a, b) || text_le(b, a),
    decreases a.len(),
{
    if a.len() > 0 && b.len() > 0 && a[0] == b[0] {
        lemma_text_le_total(a.drop_first(), b.drop_first());
    }
}

/// The order of texts is transitive.
pub proof fn lemma_text_le_transitive(a: Seq<char>, b: Seq<char>, c: Seq<char>)
    requires
        text_le(a, b),
        text_le(b, c),
    ensures
        text_le(a, c),
    decreases a.len(),
{
    if a.len() > 0 && b.len() > 0 && c.len() > 0 && a[0] == b[0] && b[0] == c[0] {
        lemma_text_le_transitive(a.drop_first(), b.drop_first(), c.drop_first());
    }
}

/// Whether `a` comes no later than `b`.
pub fn str_le(a: &str, b: &str) -> (r: bool)
    ensures
        r == text_le(a@, b@),
{
    let x = chars_of(a);
    let y = chars_of(b);
    let mut i: usize = 0;
    assert(x@.skip(0) =~= x@);
    assert(y@.skip(0) =~= y@);
    while i < x.len() && i < y.len() && x[i] == y[i]
        invariant
            i <= x.len(),
            i <= y.len(),
            text_le(x@, y@) == text_le(x@.skip(i as int), y@.skip(i as int)),
        decreases x.len() - i,
    {
        assert(x@.skip(i as int).drop_first() =~= x@.skip(i + 1));
        assert(y@.skip(i as int).drop_first() =~= y@.skip(i + 1));
        i = i + 1;
    }
    if i == x.len() {
        true
    } else if i == y.len() {
        false
    } else {
        x[i] < y[i]
    }
}

/// Whether the texts are in lexicographic order.
pub open spec fn texts_sorted(s: Seq<Seq<char>>) -> bool {
    forall|i: int, j: int| 0 <= i < j < s.len() ==> text_le(#[trigger] s[i], #[trigger] s[j])
}

/// Copies of the strings of `v`.
pub fn copy_texts(v: &Vec<String>) -> (r: Vec<String>)
    ensures
        texts(r@) == texts(v@),
{
    let mut out: Vec<String> = Vec::new();
    let mut i: usize = 0;
    while i < v.len()
        invariant
            i <= v.len(),
            texts(out@) == texts(v@).take(i as int),
        decreases v.len() - i,
    {
        let ghost before = texts(out@);
        out.push(String::from_str(v[i].as_str()));
        assert(texts(out@) =~= before.push(v@[i as int]@));
        i = i + 1;
        assert(texts(v@).take(i as int) =~= texts(v@).take(i - 1).push(v@[i - 1]@));
    }
    assert(texts(v@).take(i as int) =~= texts(v@));
    out
}

/// The strings of `v` in lexicographic order, as `Vec::sort` arranges them.
pub fn sort_texts(v: &Vec<String>) -> (r: Vec<String>)
    ensures
        texts(r@).to_multiset() == texts(v@).to_multiset(),
        texts_sorted(texts(r@)),
{
    broadcast use vstd::seq_lib::group_to_multiset_ensures;

    let ghost all = texts(v@);
    let mut rest = copy_texts(v);
    let mut out: Vec<String> = Vec::new();
    proof {
        assert(texts(out@) =~= Seq::<Seq<char>>::empty());
        assert(texts(out@).to_multiset() =~= vstd::multiset::Multiset::empty());
    }
    while rest.len() > 0
        invariant
            texts(out@).to_multiset().add(texts(rest@).to_multiset()) == all.to_multiset(),
            texts_sorted(texts(out@)),
            forall|i: int, j: int|
                0 <= i < out.len() && 0 <= j < rest.len() ==> text_le(#[trigger] out@[i]@, #[trigger] rest@[j]@),
        decreases rest.len(),
    {
        let mut m: usize = 0;
        let mut k: usize = 1;
        proof {
            lemma_text_le_reflexive(rest@[0]@);
        }
        while k < rest.len()
            invariant
                0 <= m < rest.len(),
                1 <= k <= rest.len(),
                forall|j: int| 0 <= j < k ==> text_le(rest@[m as int]@, #[trigger] rest@[j]@),
            decreases rest.len() - k,
        {
            if !str_le(rest[m].as_str(), rest[k].as_str()) {
                proof {
                    lemma_text_le_total(rest@[m as int]@, rest@[k as int]@);
                    assert forall|j: int| 0 <= j < k implies text_le(rest@[k as int]@, #[trigger] rest@[j]@) by {
                        lemma_text_le_transitive(rest@[k as int]@, rest@[m as int]@, rest@[j]@);
                    }
                }
                m = k;
            }
            proof {
                lemma_text_le_reflexive(rest@[m as int]@);
            }
            k = k + 1;
        }
        let ghost before_rest = rest@;
        let ghost before_out = out@;
        let ghost tr = texts(before_rest);
        let ghost to = texts(before_out);
        let x = rest.remove(m);
        proof {
            assert(texts(rest@) =~= tr.remove(m as int));
            vstd::seq_lib::to_multiset_remove(tr, m as int);
            assert(tr[m as int] == x@);
            assert(tr.contains(x@));
            vstd::seq_lib::to_multiset_contains(tr, x@);
            vstd::seq_lib::to_multiset_build(to, x@);
        }
        out.push(x);
        proof {
            assert(texts(out@) =~= to.push(x@));
            assert(texts(out@).to_multiset().add(texts(rest@).to_multiset()) =~= all.to_multiset());
            assert forall|i: int, j: int| 0 <= i < j < texts(out@).len() implies text_le(
                #[trigger] texts(out@)[i],
                #[trigger] texts(out@)[j],
            ) by {
                if j < out.len() - 1 {
                    assert(to[i] == texts(out@)[i]);
                    assert(to[j] == texts(out@)[j]);
                } else {
                    assert(out@[i] == before_out[i]);
                    assert(before_rest[m as int] == x);
                }
            }
            assert forall|i: int, j: int| 0 <= i < out.len() && 0 <= j < rest.len() implies text_le(
                #[trigger] out@[i]@,
                #[trigger] rest@[j]@,
            ) by {
                let jj = if j < m { j } else { j + 1 };
                assert(rest@[j] == before_rest[jj]);
                if i < out.len() - 1 {
                    assert(out@[i] == before_out[i]);
                } else {
                    assert(out@[i] == before_rest[m as int]);
                }
            }
        }
    }
    proof {
        assert(texts(rest@) =~= Seq::<Seq<char>>::empty());
        assert(texts(rest@).to_multiset() =~= vstd::multiset::Multiset::empty());
        assert(texts(out@).to_multiset().add(texts(rest@).to_multiset()) =~= texts(out@).to_multiset());
    }
    out
}

/// Two texts that each come no later than the other are the same.
pub proof fn lemma_text_le_antisymmetric(a: Seq<char>, b: Seq<char>)
    requires
        text_le(a, b),
        text_le(b, a),
    ensures
        a == b,
    decreases a.len(),
{
    if a.len() > 0 && b.len() > 0 {
        lemma_text_le_antisymmetric(a.drop_first(), b.drop_first());
        assert(a =~= seq![a[0]] + a.drop_first());
        assert(b =~= seq![b[0]] + b.drop_first());
    } else {
        assert(a =~= b);
    }
}

/// Texts have one arrangement in lexicographic order: two sorted sequences
/// with the same elements are equal.
pub proof fn lemma_sorted_arrangement_unique(a: Seq<Seq<char>>, b: Seq<Seq<char>>)
    requires
        texts_sorted(a),
        texts_sorted(b),
        a.to_multiset() == b.to_multiset(),
    ensures
        a == b,
    decreases a.len(),
{
    broadcast use vstd::seq_lib::group_to_multiset_ensures;

    vstd::seq_lib::to_multiset_len(a);
    vstd::seq_lib::to_multiset_len(b);
    if a.len() == 0 {
        assert(a =~= b);
    } else {
        let x = a[0];
        let y = b[0];
        vstd::seq_lib::to_multiset_contains(a, x);
        vstd::seq_lib::to_multiset_contains(b, x);
        vstd::seq_lib::to_multiset_contains(a, y);
        vstd::seq_lib::to_multiset_contains(b, y);
        assert(a.contains(x));
        assert(b.contains(y));
        let j = choose|j: int| 0 <= j < b.len() && b[j] == x;
        let k = choose|k: int| 0 <= k < a.len() && a[k] == y;
        if j > 0 {
            assert(text_le(b[0], b[j]));
        } else {
            lemma_text_le_reflexive(y);
        }
        if k > 0 {
            assert(text_le(a[0], a[k]));
        } else {
            lemma_text_le_reflexive(x);
        }
        lemma_text_le_antisymmetric(x, y);
        vstd::seq_lib::to_multiset_remove(a, 0);
        vstd::seq_lib::to_multiset_remove(b, 0);
        assert(a.remove(0) =~= a.drop_first());
        assert(b.remove(0) =~= b.drop_first());
        assert forall|p: int, q: int| 0 <= p < q < a.drop_first().len() implies text_le(
            #[trigger] a.drop_first()[p],
            #[trigger] a.drop_first()[q],
        ) by {
            assert(a.drop_first()[p] == a[p + 1]);
            assert(a.drop_first()[q] == a[q + 1]);
        }
        assert forall|p: int, q: int| 0 <= p < q < b.drop_first().len() implies text_le(
            #[trigger] b.drop_first()[p],
            #[trigger] b.drop_first()[q],
        ) by {
            assert(b.drop_first()[p] == b[p + 1]);
            assert(b.drop_first()[q] == b[q + 1]);
        }
        lemma_sorted_arrangement_unique(a.drop_first(), b.drop_first());
        assert(a =~= seq![x] + a.drop_first());
        assert(b =~= seq![y] + b.drop_first());
    }
}

/// How many bytes `c` takes in UTF-8.
pub open spec fn char_bytes(c: char) -> nat {
    if (c as u32) < 0x80 {
        1
    } else if (c as u32) < 0x800 {
        2
    } else if (c as u32) < 0x10000 {
        3
    } else {
        4
    }
}

/// How many bytes `s` takes in UTF-8: what `str::len` gives.
pub open spec fn text_bytes(s: Seq<char>) -> nat
    decreases s.len(),
{
    if s.len() == 0 {
        0
    } else {
        text_bytes(s.drop_last()) + char_bytes(s.last())
    }
}

/// Whether `n` bytes into `s` is the end of a character.
pub open spec fn byte_boundary(s: Seq<char>, n: nat) -> bool {
    exists|k: int| 0 <= k <= s.len() && #[trigger] text_bytes(s.take(k)) == n
}

/// The longest start of `s` of at most `n` bytes: what `String::truncate(n)`
/// leaves where `n` is the end of a character.
pub open spec fn cut_to_bytes(s: Seq<char>, n: nat) -> Seq<char>
    decreases s.len(),
{
    if text_bytes(s) <= n || s.len() == 0 {
        s
    } else {
        cut_to_bytes(s.drop_last(), n)
    }
}

proof fn lemma_bytes_prefix(s: Seq<char>, j: int)
    requires
        0 <= j <= s.len(),
    ensures
        text_bytes(s.take(j)) <= text_bytes(s),
    decreases s.len(),
{
    if j < s.len() {
        lemma_bytes_prefix(s.drop_last(), j);
        assert(s.drop_last().take(j) =~= s.take(j));
    } else {
        assert(s.take(j) =~= s);
    }
}

proof fn lemma_bytes_monotone(s: Seq<char>, j: int, k: int)
    requires
        0 <= j <= k <= s.len(),
    ensures
        text_bytes(s.take(j)) <= text_bytes(s.take(k)),
{
    lemma_bytes_prefix(s.take(k), j);
    assert(s.take(k).take(j) =~= s.take(j));
}

proof fn lemma_cut_at(s: Seq<char>, n: nat, k: int)
    requires
        0 <= k <= s.len(),
        text_bytes(s.take(k)) <= n,
        k == s.len() || text_bytes(s.take(k + 1)) > n,
    ensures
        cut_to_bytes(s, n) == s.take(k),
    decreases s.len(),
{
    if text_bytes(s) <= n || s.len() == 0 {
        if k < s.len() {
            lemma_bytes_prefix(s, k + 1);
        }
        assert(s.take(k) =~= s);
    } else {
        if k == s.len() {
            assert(s.take(k) =~= s);
        }
        let t = s.drop_last();
        assert(t.take(k) =~= s.take(k));
        if k + 1 <= t.len() {
            assert(t.take(k + 1) =~= s.take(k + 1));
        }
        lemma_cut_at(t, n, k);
    }
}

proof fn lemma_boundary_at(s: Seq<char>, n: nat, k: int)
    requires
        0 <= k <= s.len(),
        text_bytes(s.take(k)) <= n,
        k == s.len() || text_bytes(s.take(k + 1)) > n,
    ensures
        byte_boundary(s, n) <==> text_bytes(s.take(k)) == n,
{
    if byte_boundary(s, n) {
        let j = choose|j: int| 0 <= j <= s.len() && #[trigger] text_bytes(s.take(j)) == n;
        if j > k {
            lemma_bytes_monotone(s, k + 1, j);
        } else {
            lemma_bytes_monotone(s, j, k);
        }
    }
}

/// How many characters of `cs` fit in `n` bytes, with the bytes they take.
fn bytes_fit(cs: &Vec<char>, n: usize) -> (r: (usize, usize))
    ensures
        r.0 <= cs.len(),
        r.1 == text_bytes(cs@.take(r.0 as int)),
        r.1 <= n,
        r.0 == cs.len() || text_bytes(cs@.take(r.0 + 1)) > n,
{
    let mut i: usize = 0;
    let mut b: usize = 0;
    assert(cs@.take(0) =~= Seq::<char>::empty());
    while i < cs.len()
        invariant
            i <= cs.len(),
            b == text_bytes(cs@.take(i as int)),
            b <= n,
        decreases cs.len() - i,
    {
        let c = cs[i];
        let w: usize = if (c as u32) < 0x80 {
            1
        } else if (c as u32) < 0x800 {
            2
        } else if (c as u32) < 0x10000 {
            3
        } else {
            4
        };
        assert(cs@.take(i + 1).drop_last() =~= cs@.take(i as int));
        assert(cs@.take(i + 1).last() == c);
        if w > n - b {
            return (i, b);
        }
        b = b + w;
        i = i + 1;
    }
    (i, b)
}

/// `s` cut to its longest start of at most `n` bytes (see `cut_to_bytes`).
pub fn cut_str_to_bytes(s: &str, n: usize) -> (r: String)
    ensures
        r@ == cut_to_bytes(s@, n as nat),
{
    let cs = chars_of(s);
    let (k, _b) = bytes_fit(&cs, n);
    proof {
        lemma_cut_at(cs@, n as nat, k as int);
    }
    string_between(&cs, 0, k)
}

/// Whether `s` is at most `n` bytes long or `n` bytes into it ends a character:
/// where `String::truncate(n)` does not panic.
pub fn truncates_cleanly(s: &str, n: usize) -> (r: bool)
    ensures
        r == (text_bytes(s@) <= n || byte_boundary(s@, n as nat)),
{
    let cs = chars_of(s);
    let (k, b) = bytes_fit(&cs, n);
    proof {
        lemma_boundary_at(cs@, n as nat, k as int);
        if k == cs.len() {
            assert(cs@.take(k as int) =~= cs@);
        } else {
            lemma_bytes_prefix(cs@, k + 1);
        }
    }
    k == cs.len() || b == n
}

} // verus!
