//! Character-level helpers over `Seq<char>` that the rest of the library uses to
//! state and implement its string handling.
use vstd::prelude::*;

verus! {

/// Whether `needle` occurs in `hay` starting at position `i`.
pub open spec fn occurs_at(hay: Seq<char>, needle: Seq<char>, i: int) -> bool {
    0 <= i && i + needle.len() <= hay.len() && hay.subrange(i, i + needle.len()) == needle
}

/// Whether `needle` occurs anywhere in `hay`.
pub open spec fn contains_seq(hay: Seq<char>, needle: Seq<char>) -> bool {
    exists|i: int| occurs_at(hay, needle, i)
}

/// Whether `s` begins with `p`.
pub open spec fn starts_with_seq(s: Seq<char>, p: Seq<char>) -> bool {
    p.len() <= s.len() && s.subrange(0, p.len() as int) == p
}

/// The characters of a string, as a vector.
pub fn chars_of(s: &str) -> (v: Vec<char>)
    ensures
        v@ == s@,
{
    let n = s.unicode_len();
    let mut v: Vec<char> = Vec::new();
    let mut i: usize = 0;
    while i < n
        invariant
            n == s@.len(),
            i <= n,
            v@ == s@.subrange(0, i as int),
        decreases n - i,
    {
        let c = s.get_char(i);
        v.push(c);
        i = i + 1;
        assert(v@ =~= s@.subrange(0, i as int));
    }
    assert(v@ =~= s@);
    v
}

/// Builds a `String` from its characters, through `FromIterator<&char> for String`.
/// Claimed: the string holds exactly these characters, in this order.
#[verifier::external_body]
pub(crate) fn string_of(v: &[char]) -> (s: String)
    ensures
        s@ == v@,
{
    String::from_iter(v.iter())
}

/// An owned copy of a string slice.
pub fn owned(s: &str) -> (r: String)
    ensures
        r@ == s@,
{
    s.to_owned()
}

/// Equality of two string slices.
pub fn str_eq(a: &str, b: &str) -> (r: bool)
    ensures
        r == (a@ == b@),
{
    let x = a.to_owned();
    let y = b.to_owned();
    x == y
}

/// Whether `needle` occurs in `hay` at position `i`, checked character by character.
pub fn occurs_at_exec(hay: &Vec<char>, needle: &Vec<char>, i: usize) -> (r: bool)
    ensures
        r == occurs_at(hay@, needle@, i as int),
{
    if needle.len() > hay.len() || i > hay.len() - needle.len() {
        return false;
    }
    let hl = hay.len();
    let mut j: usize = 0;
    while j < needle.len()
        invariant
            hl == hay@.len(),
            i + needle@.len() <= hay@.len(),
            j <= needle@.len(),
            forall|k: int| 0 <= k < j ==> hay@[i + k] == needle@[k],
        decreases needle.len() - j,
    {
        assert(i + j < hay@.len());
        if hay[i + j] != needle[j] {
            assert(hay@.subrange(i as int, i + needle@.len())[j as int] != needle@[j as int]);
            return false;
        }
        j = j + 1;
    }
    assert(hay@.subrange(i as int, i + needle@.len()) =~= needle@);
    true
}

/// The first position at which `needle` occurs in `hay`, if any.
pub open spec fn first_occurrence(hay: Seq<char>, needle: Seq<char>) -> Option<int> {
    if contains_seq(hay, needle) {
        Some(choose|i: int| occurs_at(hay, needle, i) && forall|j: int| 0 <= j < i ==> !occurs_at(hay, needle, j))
    } else {
        None
    }
}

/// Finds the first occurrence of `needle` in `hay`.
pub fn find_exec(hay: &Vec<char>, needle: &Vec<char>) -> (r: Option<usize>)
    ensures
        match r {
            Some(i) => occurs_at(hay@, needle@, i as int) && forall|j: int| 0 <= j < i ==> !occurs_at(hay@, needle@, j),
            None => !contains_seq(hay@, needle@),
        },
{
    if needle.len() > hay.len() {
        assert forall|j: int| !occurs_at(hay@, needle@, j) by {}
        return None;
    }
    let last = hay.len() - needle.len();
    let mut i: usize = 0;
    loop
        invariant
            last == hay@.len() - needle@.len(),
            i <= last,
            forall|j: int| 0 <= j < i ==> !occurs_at(hay@, needle@, j),
        ensures
            forall|j: int| 0 <= j <= last ==> !occurs_at(hay@, needle@, j),
        decreases last - i,
    {
        if occurs_at_exec(hay, needle, i) {
            return Some(i);
        }
        if i == last {
            break;
        }
        i = i + 1;
    }
    assert forall|j: int| !occurs_at(hay@, needle@, j) by {
        if occurs_at(hay@, needle@, j) {
            assert(j <= last);
        }
    }
    None
}

/// Whether `needle` occurs in `hay`.
pub fn contains_exec(hay: &Vec<char>, needle: &Vec<char>) -> (r: bool)
    ensures
        r == contains_seq(hay@, needle@),
{
    match find_exec(hay, needle) {
        Some(i) => true,
        None => false,
    }
}

/// Whether the string slice `hay` contains the string slice `needle`.
pub fn str_contains(hay: &str, needle: &str) -> (r: bool)
    ensures
        r == contains_seq(hay@, needle@),
{
    let h = chars_of(hay);
    let n = chars_of(needle);
    contains_exec(&h, &n)
}

/// Whether `s` starts with `p`.
pub fn starts_with_exec(s: &Vec<char>, p: &Vec<char>) -> (r: bool)
    ensures
        r == starts_with_seq(s@, p@),
{
    occurs_at_exec(s, p, 0)
}

/// The characters that Rust's `char::is_whitespace` accepts: those with the Unicode
/// `White_Space` property.
pub open spec fn is_ws(c: char) -> bool {
    let u = c as u32;
    (0x9 <= u <= 0xd) || u == 0x20 || u == 0x85 || u == 0xa0 || u == 0x1680
        || (0x2000 <= u <= 0x200a) || u == 0x2028 || u == 0x2029 || u == 0x202f
        || u == 0x205f || u == 0x3000
}

/// Executable form of [`is_ws`].
pub fn is_ws_exec(c: char) -> (r: bool)
    ensures
        r == is_ws(c),
{
    let u = c as u32;
    (0x9 <= u && u <= 0xd) || u == 0x20 || u == 0x85 || u == 0xa0 || u == 0x1680
        || (0x2000 <= u && u <= 0x200a) || u == 0x2028 || u == 0x2029 || u == 0x202f
        || u == 0x205f || u == 0x3000
}

/// Number of leading whitespace characters of `s`.
pub open spec fn lead_ws(s: Seq<char>) -> nat
    decreases s.len(),
{
    if s.len() > 0 && is_ws(s[0]) {
        1 + lead_ws(s.drop_first())
    } else {
        0
    }
}

/// Number of trailing whitespace characters of `s`.
pub open spec fn trail_ws(s: Seq<char>) -> nat
    decreases s.len(),
{
    if s.len() > 0 && is_ws(s.last()) {
        1 + trail_ws(s.drop_last())
    } else {
        0
    }
}

/// `s` without its leading and trailing whitespace, as `str::trim` gives it.
pub open spec fn trim(s: Seq<char>) -> Seq<char> {
    let a = lead_ws(s);
    let t = s.skip(a as int);
    t.take(t.len() - trail_ws(t))
}

proof fn lemma_lead_ws_bound(s: Seq<char>)
    ensures
        lead_ws(s) <= s.len(),
        forall|k: int| 0 <= k < lead_ws(s) ==> is_ws(#[trigger] s[k]),
        lead_ws(s) < s.len() ==> !is_ws(s[lead_ws(s) as int]),
    decreases s.len(),
{
    if s.len() > 0 && is_ws(s[0]) {
        lemma_lead_ws_bound(s.drop_first());
        assert forall|k: int| 0 <= k < lead_ws(s) implies is_ws(#[trigger] s[k]) by {
            if k > 0 {
                assert(s[k] == s.drop_first()[k - 1]);
            }
        }
        if lead_ws(s) < s.len() {
            assert(s[lead_ws(s) as int] == s.drop_first()[lead_ws(s.drop_first()) as int]);
        }
    }
}

proof fn lemma_lead_ws_char(s: Seq<char>, i: int)
    requires
        0 <= i <= s.len(),
        forall|k: int| 0 <= k < i ==> is_ws(#[trigger] s[k]),
        i < s.len() ==> !is_ws(s[i]),
    ensures
        lead_ws(s) == i,
    decreases s.len(),
{
    if s.len() > 0 && is_ws(s[0]) {
        assert(i > 0);
        assert forall|k: int| 0 <= k < i - 1 implies is_ws(#[trigger] s.drop_first()[k]) by {
            assert(s.drop_first()[k] == s[k + 1]);
        }
        if i - 1 < s.len() - 1 {
            assert(s.drop_first()[i - 1] == s[i]);
        }
        lemma_lead_ws_char(s.drop_first(), i - 1);
    } else {
        if i > 0 {
            assert(is_ws(s[0]));
        }
    }
}

proof fn lemma_trail_ws_char(s: Seq<char>, i: int)
    requires
        0 <= i <= s.len(),
        forall|k: int| i <= k < s.len() ==> is_ws(#[trigger] s[k]),
        i > 0 ==> !is_ws(s[i - 1]),
    ensures
        trail_ws(s) == s.len() - i,
    decreases s.len(),
{
    if s.len() > 0 && is_ws(s.last()) {
        assert(i < s.len());
        assert forall|k: int| i <= k < s.len() - 1 implies is_ws(#[trigger] s.drop_last()[k]) by {
            assert(s.drop_last()[k] == s[k]);
        }
        if i > 0 {
            assert(s.drop_last()[i - 1] == s[i - 1]);
        }
        lemma_trail_ws_char(s.drop_last(), i);
    } else {
        if i < s.len() {
            assert(is_ws(s[s.len() - 1]));
        }
    }
}

/// `str::trim` on a vector of characters.
pub fn trim_exec(s: &Vec<char>) -> (r: Vec<char>)
    ensures
        r@ == trim(s@),
{
    let n = s.len();
    let mut a: usize = 0;
    while a < n && is_ws_exec(s[a])
        invariant
            n == s@.len(),
            a <= n,
            forall|k: int| 0 <= k < a ==> is_ws(#[trigger] s@[k]),
        decreases n - a,
    {
        a = a + 1;
    }
    proof {
        lemma_lead_ws_char(s@, a as int);
    }
    let ghost t = s@.skip(a as int);
    let mut b: usize = n;
    while b > a && is_ws_exec(s[b - 1])
        invariant
            n == s@.len(),
            a <= b <= n,
            forall|k: int| b <= k < n ==> is_ws(#[trigger] s@[k]),
        decreases b - a,
    {
        b = b - 1;
    }
    proof {
        assert forall|k: int| (b - a) <= k < t.len() implies is_ws(#[trigger] t[k]) by {
            assert(t[k] == s@[k + a]);
        }
        if b > a {
            assert(t[b - a - 1] == s@[b - 1]);
        }
        lemma_trail_ws_char(t, b - a);
    }
    let mut r: Vec<char> = Vec::new();
    let mut i: usize = a;
    while i < b
        invariant
            n == s@.len(),
            a <= i <= b <= n,
            r@ == s@.subrange(a as int, i as int),
        decreases b - i,
    {
        r.push(s[i]);
        i = i + 1;
        assert(r@ =~= s@.subrange(a as int, i as int));
    }
    assert(r@ =~= trim(s@));
    r
}

/// `str::trim` on a string slice.
pub fn trim_str(s: &str) -> (r: String)
    ensures
        r@ == trim(s@),
{
    let v = chars_of(s);
    let t = trim_exec(&v);
    string_of(t.as_slice())
}

} // verus!

verus! {

/// The first position in `s` whose element satisfies `p`, or `-1` where none does.
pub open spec fn first_match<A>(s: Seq<A>, p: spec_fn(A) -> bool) -> int {
    if exists|i: int| 0 <= i < s.len() && p(s[i]) {
        choose|i: int| 0 <= i < s.len() && p(s[i]) && forall|j: int| 0 <= j < i ==> !p(s[j])
    } else {
        -1
    }
}

/// `first_match` is the index a front-to-back scan stops at.
pub proof fn lemma_first_match_at<A>(s: Seq<A>, p: spec_fn(A) -> bool, i: int)
    requires
        0 <= i < s.len(),
        p(s[i]),
        forall|j: int| 0 <= j < i ==> !p(s[j]),
    ensures
        first_match(s, p) == i,
{
    assert(exists|k: int| 0 <= k < s.len() && p(s[k]));
    let c = choose|k: int| 0 <= k < s.len() && p(s[k]) && forall|j: int| 0 <= j < k ==> !p(s[j]);
    assert(0 <= c < s.len() && p(s[c]) && forall|j: int| 0 <= j < c ==> !p(s[j])) by {
        assert(0 <= i < s.len() && p(s[i]) && forall|j: int| 0 <= j < i ==> !p(s[j]));
    }
    if c < i {
        assert(!p(s[c]));
    }
    if c > i {
        assert(!p(s[i]));
    }
}

/// `first_match` is `-1` exactly where no element satisfies `p`.
pub proof fn lemma_first_match_none<A>(s: Seq<A>, p: spec_fn(A) -> bool)
    requires
        forall|j: int| 0 <= j < s.len() ==> !p(s[j]),
    ensures
        first_match(s, p) == -1,
{
}

/// What `first_match` returns: `-1`, or a matching index with no match before it.
pub proof fn lemma_first_match_props<A>(s: Seq<A>, p: spec_fn(A) -> bool)
    ensures
        -1 <= first_match(s, p) < s.len(),
        first_match(s, p) == -1 <==> forall|j: int| 0 <= j < s.len() ==> !p(s[j]),
        first_match(s, p) >= 0 ==> p(s[first_match(s, p)]),
        first_match(s, p) >= 0 ==> forall|j: int| 0 <= j < first_match(s, p) ==> !p(s[j]),
{
    if exists|i: int| 0 <= i < s.len() && p(s[i]) {
        let i = choose|i: int| 0 <= i < s.len() && p(s[i]);
        lemma_least_match(s, p, i);
    }
}

proof fn lemma_least_match<A>(s: Seq<A>, p: spec_fn(A) -> bool, i: int)
    requires
        0 <= i < s.len(),
        p(s[i]),
    ensures
        exists|k: int| 0 <= k < s.len() && p(s[k]) && forall|j: int| 0 <= j < k ==> !p(s[j]),
    decreases i,
{
    if exists|j: int| 0 <= j < i && p(s[j]) {
        let j = choose|j: int| 0 <= j < i && p(s[j]);
        lemma_least_match(s, p, j);
    } else {
        assert(0 <= i < s.len() && p(s[i]) && forall|j: int| 0 <= j < i ==> !p(s[j]));
    }
}


/// The character of a decimal digit.
pub open spec fn digit_char(d: nat) -> char {
    if d == 0 { '0' } else if d == 1 { '1' } else if d == 2 { '2' } else if d == 3 { '3' }
    else if d == 4 { '4' } else if d == 5 { '5' } else if d == 6 { '6' } else if d == 7 { '7' }
    else if d == 8 { '8' } else { '9' }
}

/// A number written in decimal, without leading zeros.
pub open spec fn decimal(n: nat) -> Seq<char>
    decreases n,
{
    if n < 10 {
        seq![digit_char(n)]
    } else {
        decimal(n / 10).push(digit_char(n % 10))
    }
}

fn digit_exec(d: u64) -> (c: char)
    requires
        d < 10,
    ensures
        c == digit_char(d as nat),
{
    if d == 0 { '0' } else if d == 1 { '1' } else if d == 2 { '2' } else if d == 3 { '3' }
    else if d == 4 { '4' } else if d == 5 { '5' } else if d == 6 { '6' } else if d == 7 { '7' }
    else if d == 8 { '8' } else { '9' }
}

fn push_decimal(n: u64, out: &mut Vec<char>)
    ensures
        final(out)@ == old(out)@ + decimal(n as nat),
    decreases n,
{
    if n >= 10 {
        push_decimal(n / 10, out);
    }
    let ghost mid = out@;
    out.push(digit_exec(n % 10));
    proof {
        if n >= 10 {
            assert(out@ =~= old(out)@ + decimal(n as nat));
        } else {
            assert(out@ =~= old(out)@ + decimal(n as nat));
        }
    }
}

/// A number written in decimal.
pub fn decimal_string(n: u64) -> (s: String)
    ensures
        s@ == decimal(n as nat),
{
    let mut v: Vec<char> = Vec::new();
    push_decimal(n, &mut v);
    assert(v@ =~= decimal(n as nat));
    string_of(v.as_slice())
}


/// A line without the carriage return that ended it.
pub open spec fn strip_cr(l: Seq<char>) -> Seq<char> {
    if l.len() > 0 && l.last() == '\r' {
        l.drop_last()
    } else {
        l
    }
}

/// The lines of a text as `str::lines` gives them: split at `\n`, a `\r` before the
/// `\n` dropped, and no empty line after a final `\n`.
pub open spec fn text_lines(s: Seq<char>) -> Seq<Seq<char>> {
    let p = crate::paths::split_char(s, '\n');
    let ended = p.drop_last().map_values(|l: Seq<char>| strip_cr(l));
    if p.last().len() == 0 {
        ended
    } else {
        ended.push(p.last())
    }
}

/// The lines of a text, as [`text_lines`] says.
pub fn lines_exec(s: &str) -> (r: Vec<Vec<char>>)
    ensures
        r@.map_values(|l: Vec<char>| l@) == text_lines(s@),
{
    let pieces = crate::paths::split_exec(&chars_of(s), '\n');
    let ghost p = crate::paths::split_char(s@, '\n');
    proof {
        crate::paths::lemma_split_nonempty(s@, '\n');
    }
    let n = pieces.len();
    let mut out: Vec<Vec<char>> = Vec::new();
    let mut i: usize = 0;
    while i + 1 < n
        invariant
            n == p.len(),
            n >= 1,
            i + 1 <= n,
            pieces@.map_values(|l: Vec<char>| l@) == p,
            out@.map_values(|l: Vec<char>| l@) == p.take(i as int).map_values(|l: Seq<char>| strip_cr(l)),
        decreases n - i,
    {
        let piece = &pieces[i];
        let mut l = piece.clone();
        assert(l@ == p[i as int]);
        if l.len() > 0 && l[l.len() - 1] == '\r' {
            let _ = l.pop();
        }
        let ghost before = out@;
        out.push(l);
        proof {
            assert(out@.map_values(|l: Vec<char>| l@) =~= before.map_values(|l: Vec<char>| l@).push(strip_cr(p[i as int])));
            assert(p.take(i + 1) =~= p.take(i as int).push(p[i as int]));
            assert(p.take(i + 1).map_values(|l: Seq<char>| strip_cr(l)) =~= p.take(i as int).map_values(
                |l: Seq<char>| strip_cr(l),
            ).push(strip_cr(p[i as int])));
        }
        i = i + 1;
    }
    assert(p.take(i as int) =~= p.drop_last());
    let last = &pieces[n - 1];
    if last.len() > 0 {
        let ghost before = out@;
        out.push(last.clone());
        assert(out@.map_values(|l: Vec<char>| l@) =~= before.map_values(|l: Vec<char>| l@).push(p.last()));
    }
    out
}

/// The pieces that are not empty.
pub open spec fn nonempty_pieces(pieces: Seq<Seq<char>>) -> Seq<Seq<char>>
    decreases pieces.len(),
{
    if pieces.len() == 0 {
        Seq::empty()
    } else {
        let r = nonempty_pieces(pieces.drop_last());
        if pieces.last().len() > 0 {
            r.push(pieces.last())
        } else {
            r
        }
    }
}

/// `s` split at white space, as [`is_ws`] defines it.
pub open spec fn split_ws(s: Seq<char>) -> Seq<Seq<char>>
    decreases s.len(),
{
    if s.len() == 0 {
        seq![Seq::<char>::empty()]
    } else {
        let p = split_ws(s.drop_last());
        if is_ws(s.last()) {
            p.push(Seq::<char>::empty())
        } else {
            p.update(p.len() - 1, p.last().push(s.last()))
        }
    }
}

/// The words of a text as `str::split_whitespace` gives them.
pub open spec fn words(s: Seq<char>) -> Seq<Seq<char>> {
    nonempty_pieces(split_ws(s))
}

proof fn lemma_split_ws_nonempty(s: Seq<char>)
    ensures
        split_ws(s).len() >= 1,
    decreases s.len(),
{
    if s.len() > 0 {
        lemma_split_ws_nonempty(s.drop_last());
    }
}

/// The words of a text, as [`words`] says.
pub fn words_exec(s: &Vec<char>) -> (r: Vec<Vec<char>>)
    ensures
        r@.map_values(|w: Vec<char>| w@) == words(s@),
{
    let ghost t = s@;
    let n = s.len();
    let mut done: Vec<Vec<char>> = Vec::new();
    let mut cur: Vec<char> = Vec::new();
    let mut i: usize = 0;
    proof {
        assert(t.take(0) =~= Seq::<char>::empty());
        assert(split_ws(t.take(0)) =~= seq![Seq::<char>::empty()]);
        assert(split_ws(t.take(0)).drop_last() =~= Seq::<Seq<char>>::empty());
        assert(done@.map_values(|w: Vec<char>| w@) =~= nonempty_pieces(split_ws(t.take(0)).drop_last()));
    }
    while i < n
        invariant
            n == t.len(),
            t == s@,
            i <= n,
            split_ws(t.take(i as int)).len() >= 1,
            done@.map_values(|w: Vec<char>| w@) == nonempty_pieces(split_ws(t.take(i as int)).drop_last()),
            cur@ == split_ws(t.take(i as int)).last(),
        decreases n - i,
    {
        let ghost sp = split_ws(t.take(i as int));
        proof {
            assert(t.take(i + 1).drop_last() =~= t.take(i as int));
            lemma_split_ws_nonempty(t.take(i + 1));
        }
        if is_ws_exec(s[i]) {
            let ghost before = done@;
            if cur.len() > 0 {
                let piece = cur;
                done.push(piece);
                assert(done@.map_values(|w: Vec<char>| w@) =~= before.map_values(|w: Vec<char>| w@).push(sp.last()));
            }
            cur = Vec::new();
            proof {
                let sp2 = split_ws(t.take(i + 1));
                assert(sp2 == sp.push(Seq::<char>::empty()));
                assert(sp2.drop_last() =~= sp);
                assert(sp.drop_last().push(sp.last()) =~= sp);
                assert(nonempty_pieces(sp) == {
                    let r = nonempty_pieces(sp.drop_last());
                    if sp.last().len() > 0 { r.push(sp.last()) } else { r }
                });
                assert(cur@ =~= sp2.last());
            }
        } else {
            cur.push(s[i]);
            proof {
                let sp2 = split_ws(t.take(i + 1));
                assert(sp2.drop_last() =~= sp.drop_last());
                assert(cur@ =~= sp2.last());
            }
        }
        i = i + 1;
    }
    proof {
        assert(t.take(n as int) =~= t);
        lemma_split_ws_nonempty(t);
    }
    let ghost sp = split_ws(t);
    let ghost before = done@;
    if cur.len() > 0 {
        done.push(cur);
        assert(done@.map_values(|w: Vec<char>| w@) =~= before.map_values(|w: Vec<char>| w@).push(sp.last()));
    }
    proof {
        assert(sp.drop_last().push(sp.last()) =~= sp);
        assert(nonempty_pieces(sp) == {
            let r = nonempty_pieces(sp.drop_last());
            if sp.last().len() > 0 { r.push(sp.last()) } else { r }
        });
    }
    done
}


/// A signed number written in decimal, with a leading `-` where it is negative.
pub open spec fn signed_decimal(n: int) -> Seq<char> {
    if n < 0 {
        seq!['-'] + decimal((-n) as nat)
    } else {
        decimal(n as nat)
    }
}

/// A signed number written in decimal.
pub fn signed_decimal_string(n: i32) -> (s: String)
    ensures
        s@ == signed_decimal(n as int),
{
    let mut v: Vec<char> = Vec::new();
    if n < 0 {
        v.push('-');
        let m: i64 = 0 - (n as i64);
        push_decimal(m as u64, &mut v);
        assert(v@ =~= seq!['-'] + decimal((-n) as nat));
    } else {
        push_decimal(n as u64, &mut v);
        assert(v@ =~= decimal(n as nat));
    }
    string_of(v.as_slice())
}

} // verus!
