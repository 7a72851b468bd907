use vstd::prelude::*;

verus! {

/// Unicode `White_Space` property, as `char::is_whitespace` defines it.
pub open spec fn is_ws(c: char) -> bool {
    let u = c as u32;
    ||| 0x09 <= u <= 0x0d
    ||| u == 0x20
    ||| u == 0x85
    ||| u == 0xa0
    ||| u == 0x1680
    ||| 0x2000 <= u <= 0x200a
    ||| u == 0x2028
    ||| u == 0x2029
    ||| u == 0x202f
    ||| u == 0x205f
    ||| u == 0x3000
}

/// The text with its leading whitespace removed.
pub open spec fn trim_start_ws(s: Seq<char>) -> Seq<char>
    decreases s.len(),
{
    if s.len() > 0 && is_ws(s[0]) {
        trim_start_ws(s.drop_first())
    } else {
        s
    }
}

/// The text with its trailing whitespace removed.
pub open spec fn trim_end_ws(s: Seq<char>) -> Seq<char>
    decreases s.len(),
{
    if s.len() > 0 && is_ws(s.last()) {
        trim_end_ws(s.drop_last())
    } else {
        s
    }
}

/// The text with whitespace removed at both ends (`str::trim`).
pub open spec fn trim_ws(s: Seq<char>) -> Seq<char> {
    trim_end_ws(trim_start_ws(s))
}

/// Whether `c` is whitespace.
pub fn is_whitespace(c: char) -> (r: bool)
    ensures
        r == is_ws(c),
{
    let u: u32 = c as u32;
    (0x09 <= u && u <= 0x0d) || u == 0x20 || u == 0x85 || u == 0xa0 || u == 0x1680 || (0x2000
        <= u && u <= 0x200a) || u == 0x2028 || u == 0x2029 || u == 0x202f || u == 0x205f || u
        == 0x3000
}

/// The characters of a string, in order.
pub fn to_chars(s: &str) -> (v: Vec<char>)
    ensures
        v@ == s@,
{
    let n: usize = s.unicode_len();
    let mut v: Vec<char> = Vec::new();
    let mut i: usize = 0;
    while i < n
        invariant
            n == s@.len(),
            i <= n,
            v@ == s@.subrange(0, i as int),
        decreases n - i,
    {
        let c = s.get_char(i);
        v.push(c);
        i = i + 1;
        assert(v@ =~= s@.subrange(0, i as int));
    }
    assert(v@ =~= s@);
    v
}

proof fn lemma_trim_start_skip(s: Seq<char>, i: int)
    requires
        0 <= i < s.len(),
        is_ws(s[i]),
    ensures
        trim_start_ws(s.subrange(i, s.len() as int)) == trim_start_ws(s.subrange(i + 1, s.len() as int)),
{
    let t = s.subrange(i, s.len() as int);
    assert(t.drop_first() =~= s.subrange(i + 1, s.len() as int));
}

proof fn lemma_trim_end_skip(s: Seq<char>, j: int)
    requires
        0 < j <= s.len(),
        is_ws(s[j - 1]),
    ensures
        trim_end_ws(s.subrange(0, j)) == trim_end_ws(s.subrange(0, j - 1)),
{
    let t = s.subrange(0, j);
    assert(t.drop_last() =~= s.subrange(0, j - 1));
}

/// Bounds `(a, b)` with `trim_ws(s) == s.subrange(a, b)`.
pub fn trim_bounds(s: &Vec<char>) -> (r: (usize, usize))
    ensures
        r.0 <= r.1 <= s@.len(),
        trim_ws(s@) == s@.subrange(r.0 as int, r.1 as int),
{
    let n: usize = s.len();
    let mut a: usize = 0;
    assert(s@.subrange(0, n as int) =~= s@);
    while a < n && is_whitespace(s[a])
        invariant
            n == s@.len(),
            a <= n,
            trim_start_ws(s@) == trim_start_ws(s@.subrange(a as int, n as int)),
        decreases n - a,
    {
        proof {
            lemma_trim_start_skip(s@, a as int);
        }
        a = a + 1;
    }
    let ghost t = s@.subrange(a as int, n as int);
    assert(trim_start_ws(s@) == t) by {
        if a < n {
            assert(t[0] == s@[a as int]);
        }
    }
    let mut b: usize = n;
    assert(t.subrange(0, (b - a) as int) =~= t);
    while b > a && is_whitespace(s[b - 1])
        invariant
            n == s@.len(),
            a <= b <= n,
            t == s@.subrange(a as int, n as int),
            trim_end_ws(t) == trim_end_ws(t.subrange(0, (b - a) as int)),
        decreases b,
    {
        proof {
            assert(t[(b - a) - 1] == s@[b - 1]);
            lemma_trim_end_skip(t, (b - a) as int);
        }
        b = b - 1;
    }
    let ghost u = t.subrange(0, (b - a) as int);
    assert(trim_end_ws(u) == u) by {
        if b > a {
            assert(u.last() == s@[b - 1]);
        }
    }
    assert(u =~= s@.subrange(a as int, b as int));
    (a, b)
}

/// `str::trim`: the string with whitespace removed at both ends.
pub fn trim(s: &str) -> (r: &str)
    ensures
        r@ == trim_ws(s@),
{
    let cs = to_chars(s);
    let (a, b) = trim_bounds(&cs);
    s.substring_char(a, b)
}


/// Whether two character sequences held in vectors are equal.
pub fn chars_eq(a: &Vec<char>, b: &Vec<char>) -> (r: bool)
    ensures
        r == (a@ == b@),
{
    if a.len() != b.len() {
        return false;
    }
    let mut i: usize = 0;
    while i < a.len()
        invariant
            a@.len() == b@.len(),
            i <= a@.len(),
            forall|k: int| 0 <= k < i ==> a@[k] == b@[k],
        decreases a@.len() - i,
    {
        if a[i] != b[i] {
            return false;
        }
        i = i + 1;
    }
    assert(a@ =~= b@);
    true
}

/// `==` on strings.
pub fn str_eq(a: &str, b: &str) -> (r: bool)
    ensures
        r == (a@ == b@),
{
    let ca = to_chars(a);
    let cb = to_chars(b);
    chars_eq(&ca, &cb)
}

/// `str::starts_with` with a string pattern.
pub fn starts_with(s: &str, p: &str) -> (r: bool)
    ensures
        r == p@.is_prefix_of(s@),
{
    let cs = to_chars(s);
    let cp = to_chars(p);
    if cp.len() > cs.len() {
        return false;
    }
    let mut i: usize = 0;
    while i < cp.len()
        invariant
            cs@ == s@,
            cp@ == p@,
            cp@.len() <= cs@.len(),
            i <= cp@.len(),
            forall|k: int| 0 <= k < i ==> cp@[k] == cs@[k],
        decreases cp@.len() - i,
    {
        if cp[i] != cs[i] {
            assert(cs@.subrange(0, cp@.len() as int)[i as int] == cs@[i as int]);
            return false;
        }
        i = i + 1;
    }
    true
}

/// The pieces of a text between occurrences of a separator (`str::split`
/// with a `char` pattern).
pub open spec fn split_char(s: Seq<char>, c: char) -> Seq<Seq<char>>
    decreases s.len(),
{
    if s.len() == 0 {
        seq![Seq::empty()]
    } else {
        let r = split_char(s.drop_last(), c);
        if s.last() == c {
            r.push(Seq::empty())
        } else {
            r.update(r.len() - 1, r.last().push(s.last()))
        }
    }
}

pub proof fn lemma_split_char_nonempty(s: Seq<char>, c: char)
    ensures
        split_char(s, c).len() >= 1,
    decreases s.len(),
{
    if s.len() > 0 {
        lemma_split_char_nonempty(s.drop_last(), c);
    }
}

/// `str::split` with a `char` separator, collected.
pub fn split<'a>(s: &'a str, c: char) -> (v: Vec<&'a str>)
    ensures
        v@.len() == split_char(s@, c).len(),
        forall|k: int| 0 <= k < v@.len() ==> #[trigger] v@[k]@ == split_char(s@, c)[k],
{
    let cs = to_chars(s);
    let n: usize = cs.len();
    let mut pieces: Vec<&'a str> = Vec::new();
    let mut start: usize = 0;
    let mut i: usize = 0;
    assert(cs@.take(0) =~= Seq::<char>::empty());
    while i < n
        invariant
            n == cs@.len(),
            cs@ == s@,
            start <= i <= n,
            pieces@.len() + 1 == split_char(cs@.take(i as int), c).len(),
            forall|k: int| 0 <= k < pieces@.len() ==> #[trigger] pieces@[k]@ == split_char(cs@.take(i as int), c)[k],
            split_char(cs@.take(i as int), c).last() == cs@.subrange(start as int, i as int),
        decreases n - i,
    {
        let ghost before = split_char(cs@.take(i as int), c);
        assert(cs@.take(i + 1).drop_last() =~= cs@.take(i as int));
        assert(cs@.take(i + 1).last() == cs@[i as int]);
        proof {
            lemma_split_char_nonempty(cs@.take(i as int), c);
        }
        if cs[i] == c {
            let piece = s.substring_char(start, i);
            pieces.push(piece);
            start = i + 1;
            assert(cs@.subrange(start as int, i + 1) =~= Seq::<char>::empty());
        } else {
            assert(cs@.subrange(start as int, i + 1) =~= cs@.subrange(start as int, i as int).push(cs@[i as int]));
        }
        i = i + 1;
    }
    let piece = s.substring_char(start, n);
    pieces.push(piece);
    assert(cs@.take(n as int) =~= cs@);
    pieces
}

/// The text with every leading `c` removed (`str::trim_start_matches`
/// with a `char` pattern).
pub open spec fn trim_start_char(s: Seq<char>, c: char) -> Seq<char>
    decreases s.len(),
{
    if s.len() > 0 && s[0] == c {
        trim_start_char(s.drop_first(), c)
    } else {
        s
    }
}

/// The text with every trailing `c` removed (`str::trim_end_matches` with
/// a `char` pattern).
pub open spec fn trim_end_char(s: Seq<char>, c: char) -> Seq<char>
    decreases s.len(),
{
    if s.len() > 0 && s.last() == c {
        trim_end_char(s.drop_last(), c)
    } else {
        s
    }
}

/// `str::trim_start_matches` with a `char` pattern.
pub fn trim_start_matches_char(s: &str, c: char) -> (r: &str)
    ensures
        r@ == trim_start_char(s@, c),
{
    let cs = to_chars(s);
    let n: usize = cs.len();
    let mut a: usize = 0;
    assert(cs@.subrange(0, n as int) =~= cs@);
    while a < n && cs[a] == c
        invariant
            n == cs@.len(),
            cs@ == s@,
            a <= n,
            trim_start_char(cs@, c) == trim_start_char(cs@.subrange(a as int, n as int), c),
        decreases n - a,
    {
        assert(cs@.subrange(a as int, n as int).drop_first() =~= cs@.subrange(a + 1, n as int));
        a = a + 1;
    }
    let ghost t = cs@.subrange(a as int, n as int);
    assert(trim_start_char(cs@, c) == t) by {
        if a < n {
            assert(t[0] == cs@[a as int]);
        }
    }
    s.substring_char(a, n)
}

/// `str::trim_end_matches` with a `char` pattern.
pub fn trim_end_matches_char(s: &str, c: char) -> (r: &str)
    ensures
        r@ == trim_end_char(s@, c),
{
    let cs = to_chars(s);
    let n: usize = cs.len();
    let mut b: usize = n;
    assert(cs@.subrange(0, n as int) =~= cs@);
    while b > 0 && cs[b - 1] == c
        invariant
            n == cs@.len(),
            cs@ == s@,
            b <= n,
            trim_end_char(cs@, c) == trim_end_char(cs@.subrange(0, b as int), c),
        decreases b,
    {
        assert(cs@.subrange(0, b as int).drop_last() =~= cs@.subrange(0, b - 1));
        b = b - 1;
    }
    let ghost t = cs@.subrange(0, b as int);
    assert(trim_end_char(cs@, c) == t) by {
        if b > 0 {
            assert(t.last() == cs@[b - 1]);
        }
    }
    s.substring_char(0, b)
}

/// The text with every leading repetition of `p` removed
/// (`str::trim_start_matches` with a string pattern).
pub open spec fn trim_start_str(s: Seq<char>, p: Seq<char>) -> Seq<char>
    decreases s.len(),
{
    if p.len() > 0 && p.is_prefix_of(s) {
        trim_start_str(s.skip(p.len() as int), p)
    } else {
        s
    }
}

/// Whether `p` occurs in `s` at position `at`.
fn occurs_at(s: &Vec<char>, p: &Vec<char>, at: usize) -> (r: bool)
    requires
        at <= s@.len(),
    ensures
        r == p@.is_prefix_of(s@.skip(at as int)),
{
    if p.len() > s.len() - at {
        return false;
    }
    let mut i: usize = 0;
    assert(s@.skip(at as int).len() == s@.len() - at);
    while i < p.len()
        invariant
            at <= s@.len(),
            p@.len() <= s@.len() - at,
            i <= p@.len(),
            at + p@.len() <= s.len(),
            forall|k: int| 0 <= k < i ==> p@[k] == s@[at + k],
        decreases p@.len() - i,
    {
        if p[i] != s[at + i] {
            assert(s@.skip(at as int).subrange(0, p@.len() as int)[i as int] == s@[at + i]);
            return false;
        }
        i = i + 1;
    }
    true
}

/// `str::trim_start_matches` with a string pattern.
pub fn trim_start_matches_str<'a>(s: &'a str, p: &str) -> (r: &'a str)
    ensures
        r@ == trim_start_str(s@, p@),
{
    let cs = to_chars(s);
    let cp = to_chars(p);
    let n: usize = cs.len();
    if cp.len() == 0 {
        return s;
    }
    let mut a: usize = 0;
    assert(cs@.skip(0) =~= cs@);
    while occurs_at(&cs, &cp, a)
        invariant
            n == cs@.len(),
            cs@ == s@,
            cp@ == p@,
            cp@.len() > 0,
            a <= n,
            trim_start_str(cs@, cp@) == trim_start_str(cs@.skip(a as int), cp@),
        decreases n - a,
    {
        assert(cs@.skip(a as int).skip(cp@.len() as int) =~= cs@.skip(a + cp@.len()));
        a = a + cp.len();
    }
    assert(cs@.skip(a as int) =~= cs@.subrange(a as int, n as int));
    s.substring_char(a, n)
}


/// The whitespace-separated words of a text (`str::split_whitespace`).
pub open spec fn words(s: Seq<char>) -> Seq<Seq<char>>
    decreases s.len(),
{
    if s.len() == 0 {
        Seq::empty()
    } else {
        let r = words(s.drop_last());
        let c = s.last();
        if is_ws(c) {
            r
        } else if s.len() > 1 && !is_ws(s[s.len() - 2]) {
            r.update(r.len() - 1, r.last().push(c))
        } else {
            r.push(seq![c])
        }
    }
}

/// `str::split_whitespace`, collected.
pub fn split_whitespace<'a>(s: &'a str) -> (v: Vec<&'a str>)
    ensures
        v@.len() == words(s@).len(),
        forall|k: int| 0 <= k < v@.len() ==> #[trigger] v@[k]@ == words(s@)[k],
{
    let cs = to_chars(s);
    let n: usize = cs.len();
    let mut found: Vec<&'a str> = Vec::new();
    let mut in_word: bool = false;
    let mut start: usize = 0;
    let mut i: usize = 0;
    assert(cs@.take(0) =~= Seq::<char>::empty());
    while i < n
        invariant
            n == cs@.len(),
            cs@ == s@,
            start <= i <= n,
            in_word ==> i > 0 && !is_ws(cs@[i - 1]),
            !in_word ==> i == 0 || is_ws(cs@[i - 1]),
            words(cs@.take(i as int)).len() == found@.len() + (if in_word { 1int } else { 0 }),
            forall|k: int| 0 <= k < found@.len() ==> #[trigger] found@[k]@ == words(cs@.take(i as int))[k],
            in_word ==> words(cs@.take(i as int)).last() == cs@.subrange(start as int, i as int),
        decreases n - i,
    {
        let ghost t = cs@.take(i + 1);
        assert(t.drop_last() =~= cs@.take(i as int));
        assert(t.last() == cs@[i as int]);
        if i > 0 {
            assert(t[t.len() - 2] == cs@[i - 1]);
        }
        if is_whitespace(cs[i]) {
            if in_word {
                let w = s.substring_char(start, i);
                found.push(w);
                in_word = false;
            }
        } else {
            if in_word {
                assert(cs@.subrange(start as int, i + 1) =~= cs@.subrange(start as int, i as int).push(cs@[i as int]));
            } else {
                start = i;
                in_word = true;
                assert(cs@.subrange(start as int, i + 1) =~= seq![cs@[i as int]]);
            }
        }
        i = i + 1;
    }
    if in_word {
        let w = s.substring_char(start, n);
        found.push(w);
    }
    assert(cs@.take(n as int) =~= cs@);
    found
}

/// `str::parse::<bool>`.
pub open spec fn parse_bool_spec(s: Seq<char>) -> Option<bool> {
    if s == "true"@ {
        Some(true)
    } else if s == "false"@ {
        Some(false)
    } else {
        None
    }
}

/// `str::parse::<bool>`.
pub fn parse_bool(s: &str) -> (r: Option<bool>)
    ensures
        r == parse_bool_spec(s@),
{
    if str_eq(s, "true") {
        Some(true)
    } else if str_eq(s, "false") {
        Some(false)
    } else {
        None
    }
}

/// An ASCII decimal digit.
pub open spec fn is_digit(c: char) -> bool {
    0x30 <= (c as u32) <= 0x39
}

/// Every character is a decimal digit.
pub open spec fn all_digits(s: Seq<char>) -> bool {
    forall|k: int| 0 <= k < s.len() ==> #[trigger] is_digit(s[k])
}

/// The number that a string of decimal digits denotes.
pub open spec fn digits_value(s: Seq<char>) -> nat
    decreases s.len(),
{
    if s.len() == 0 {
        0
    } else {
        digits_value(s.drop_last()) * 10 + ((s.last() as u32) - 0x30) as nat
    }
}

/// What `str::parse` gives for an integer type: an optional sign (a `-` only
/// when `signed`), then one or more decimal digits. The range check is left
/// to the caller.
pub open spec fn parse_int_spec(s: Seq<char>, signed: bool) -> Option<int> {
    if s.len() == 0 {
        None
    } else {
        let neg = signed && s[0] == '-';
        let body = if s[0] == '+' || neg { s.drop_first() } else { s };
        if body.len() == 0 || !all_digits(body) {
            None
        } else if neg {
            Some(-(digits_value(body) as int))
        } else {
            Some(digits_value(body) as int)
        }
    }
}

/// `str::parse::<i32>`.
pub open spec fn parse_i32_spec(s: Seq<char>) -> Option<i32> {
    match parse_int_spec(s, true) {
        Some(v) => if i32::MIN <= v <= i32::MAX { Some(v as i32) } else { None },
        None => None,
    }
}

/// `str::parse::<usize>`.
pub open spec fn parse_usize_spec(s: Seq<char>) -> Option<usize> {
    match parse_int_spec(s, false) {
        Some(v) => if 0 <= v <= usize::MAX { Some(v as usize) } else { None },
        None => None,
    }
}

proof fn lemma_digits_mono(s: Seq<char>, i: int, j: int)
    requires
        0 <= i <= j <= s.len(),
        all_digits(s),
    ensures
        digits_value(s.take(i)) <= digits_value(s.take(j)),
    decreases j - i,
{
    if i < j {
        lemma_digits_mono(s, i, j - 1);
        assert(s.take(j).drop_last() =~= s.take(j - 1));
        assert(is_digit(s[j - 1]));
    }
}

/// The value of `s[from..]` when it is a nonempty run of digits that does
/// not exceed `bound`.
fn digits_up_to(s: &Vec<char>, from: usize, bound: u64) -> (r: Option<u64>)
    requires
        from <= s@.len(),
    ensures
        ({
            let body = s@.skip(from as int);
            r == (if body.len() > 0 && all_digits(body) && digits_value(body) <= bound {
                Some(digits_value(body) as u64)
            } else {
                None
            })
        }),
{
    let ghost body = s@.skip(from as int);
    let n: usize = s.len();
    if from == n {
        return None;
    }
    let mut acc: u128 = 0;
    let mut i: usize = from;
    assert(body.take(0) =~= Seq::<char>::empty());
    while i < n
        invariant
            n == s@.len(),
            from < n,
            from <= i <= n,
            body == s@.skip(from as int),
            all_digits(body.take(i - from)),
            acc == digits_value(body.take(i - from)),
            acc <= bound,
        decreases n - i,
    {
        let c = s[i];
        let ghost t = body.take(i - from + 1);
        assert(t.drop_last() =~= body.take(i - from));
        assert(t.last() == c);
        if !((c as u32) >= 0x30 && (c as u32) <= 0x39) {
            assert(!is_digit(body[i - from]));
            return None;
        }
        let d: u128 = ((c as u32) - 0x30) as u128;
        acc = acc * 10 + d;
        assert(all_digits(t)) by {
            assert forall|k: int| 0 <= k < t.len() implies #[trigger] is_digit(t[k]) by {
                if k < t.len() - 1 {
                    assert(t[k] == body.take(i - from)[k]);
                }
            }
        }
        i = i + 1;
        if acc > bound as u128 {
            proof {
                if all_digits(body) {
                    lemma_digits_mono(body, i - from, body.len() as int);
                    assert(body.take(body.len() as int) =~= body);
                }
            }
            return None;
        }
    }
    assert(body.take(n - from) =~= body);
    Some(acc as u64)
}

/// `str::parse::<i32>`.
pub fn parse_i32(s: &str) -> (r: Option<i32>)
    ensures
        r == parse_i32_spec(s@),
{
    let cs = to_chars(s);
    if cs.len() == 0 {
        return None;
    }
    let neg: bool = cs[0] == '-';
    let from: usize = if cs[0] == '+' || neg { 1 } else { 0 };
    let ghost body = if cs@[0] == '+' || neg { cs@.drop_first() } else { cs@ };
    assert(body =~= cs@.skip(from as int));
    let bound: u64 = if neg { 0x8000_0000 } else { 0x7fff_ffff };
    match digits_up_to(&cs, from, bound) {
        Some(v) => {
            if neg {
                Some((0 - (v as i64)) as i32)
            } else {
                Some(v as i32)
            }
        },
        None => None,
    }
}

/// `str::parse::<usize>`.
pub fn parse_usize(s: &str) -> (r: Option<usize>)
    ensures
        r == parse_usize_spec(s@),
{
    let cs = to_chars(s);
    if cs.len() == 0 {
        return None;
    }
    let from: usize = if cs[0] == '+' { 1 } else { 0 };
    let ghost body = if cs@[0] == '+' { cs@.drop_first() } else { cs@ };
    assert(body =~= cs@.skip(from as int));
    let bound: u64 = usize::MAX as u64;
    match digits_up_to(&cs, from, bound) {
        Some(v) => Some(v as usize),
        None => None,
    }
}


/// An owned copy of a string.
pub fn string_of(s: &str) -> (r: String)
    ensures
        r@ == s@,
{
    String::from_str(s)
}

/// Appends `t` to `s`.
pub fn append_str(s: &mut String, t: &str)
    ensures
        final(s)@ == old(s)@ + t@,
{
    s.append(t);
}


/// The decimal digit for `d` (below ten).
pub open spec fn digit_char(d: nat) -> char {
    "0123456789"@[d as int]
}

/// The decimal notation of a number, without leading zeros.
pub open spec fn decimal(n: nat) -> Seq<char>
    decreases n,
{
    if n < 10 {
        seq![digit_char(n)]
    } else {
        decimal(n / 10).push(digit_char(n % 10))
    }
}

/// Appends the decimal notation of `n` to `s`.
pub fn append_decimal(s: &mut String, n: usize)
    ensures
        final(s)@ == old(s)@ + decimal(n as nat),
    decreases n,
{
    if n >= 10 {
        append_decimal(s, n / 10);
    }
    let d: usize = n % 10;
    let digits = "0123456789";
    proof {
        reveal_strlit("0123456789");
    }
    let one = digits.substring_char(d, d + 1);
    assert(one@ =~= seq![digit_char(d as nat)]);
    s.append(one);
    if n >= 10 {
        assert(s@ =~= old(s)@ + decimal(n as nat)) by {
            assert(decimal(n as nat) == decimal((n / 10) as nat).push(digit_char((n % 10) as nat)));
        }
    } else {
        assert(s@ =~= old(s)@ + decimal(n as nat));
    }
}

} // verus!
