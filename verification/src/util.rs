//! Small shared pieces: a three-way comparison result, byte-wise
//! lexicographic order, and the order on strings that it induces.
use vstd::prelude::*;
use vstd::utf8::*;
use vstd::string::StringExecFns;

verus! {

/// Outcome of a three-way comparison.
#[derive(PartialEq, Eq, Structural, Clone, Copy, Debug)]
pub enum Order {
    Less,
    Equal,
    Greater,
}

impl Order {
    pub open spec fn flip(self) -> Order {
        match self {
            Order::Less => Order::Greater,
            Order::Equal => Order::Equal,
            Order::Greater => Order::Less,
        }
    }

    /// The opposite outcome (`Less` and `Greater` swap).
    pub fn reverse(self) -> (r: Order)
        ensures
            r == self.flip(),
    {
        match self {
            Order::Less => Order::Greater,
            Order::Equal => Order::Equal,
            Order::Greater => Order::Less,
        }
    }
}

/// Lexicographic order on byte sequences (the order of `[u8]` and `str`).
pub open spec fn lex_order(a: Seq<u8>, b: Seq<u8>) -> Order
    decreases a.len(),
{
    if a.len() == 0 {
        if b.len() == 0 {
            Order::Equal
        } else {
            Order::Less
        }
    } else if b.len() == 0 {
        Order::Greater
    } else if a[0] < b[0] {
        Order::Less
    } else if a[0] > b[0] {
        Order::Greater
    } else {
        lex_order(a.drop_first(), b.drop_first())
    }
}

/// The order of Rust strings: their UTF-8 bytes compared lexicographically.
pub open spec fn str_order_spec(a: Seq<char>, b: Seq<char>) -> Order {
    lex_order(encode_utf8(a), encode_utf8(b))
}

/// Two byte strings compare equal exactly when they are the same.
pub proof fn lemma_lex_order_equal(a: Seq<u8>, b: Seq<u8>)
    ensures
        (lex_order(a, b) == Order::Equal) <==> (a == b),
    decreases a.len(),
{
    if a.len() > 0 && b.len() > 0 && a[0] == b[0] {
        lemma_lex_order_equal(a.drop_first(), b.drop_first());
        if a.drop_first() == b.drop_first() {
            assert(a =~= seq![a[0]] + a.drop_first());
            assert(b =~= seq![b[0]] + b.drop_first());
            assert(a =~= b);
        }
    } else if a.len() == 0 && b.len() == 0 {
        assert(a =~= b);
    } else if a.len() > 0 && b.len() > 0 {
        assert(a != b) by {
            if a == b {
                assert(a[0] == b[0]);
            }
        }
    }
}

/// Comparing two byte strings the other way round gives the opposite order.
pub proof fn lemma_lex_order_flip(a: Seq<u8>, b: Seq<u8>)
    ensures
        lex_order(b, a) == lex_order(a, b).flip(),
    decreases a.len(),
{
    if a.len() > 0 && b.len() > 0 && a[0] == b[0] {
        lemma_lex_order_flip(a.drop_first(), b.drop_first());
    }
}

/// Being less in the byte-string order is transitive.
pub proof fn lemma_lex_order_trans(a: Seq<u8>, b: Seq<u8>, c: Seq<u8>)
    requires
        lex_order(a, b) == Order::Less,
        lex_order(b, c) == Order::Less,
    ensures
        lex_order(a, c) == Order::Less,
    decreases a.len(),
{
    if a.len() > 0 && b.len() > 0 && c.len() > 0 && a[0] == b[0] && b[0] == c[0] {
        lemma_lex_order_trans(a.drop_first(), b.drop_first(), c.drop_first());
    }
}

/// Two strings compare equal exactly when they are the same.
pub proof fn lemma_str_order_equal(a: Seq<char>, b: Seq<char>)
    ensures
        (str_order_spec(a, b) == Order::Equal) <==> (a == b),
{
    lemma_lex_order_equal(encode_utf8(a), encode_utf8(b));
    if encode_utf8(a) == encode_utf8(b) {
        encode_utf8_decode_utf8(a);
        encode_utf8_decode_utf8(b);
    }
}

/// Comparing two strings the other way round gives the opposite order.
pub proof fn lemma_str_order_flip(a: Seq<char>, b: Seq<char>)
    ensures
        str_order_spec(b, a) == str_order_spec(a, b).flip(),
{
    lemma_lex_order_flip(encode_utf8(a), encode_utf8(b));
}

/// Being less in the string order is transitive.
pub proof fn lemma_str_order_trans(a: Seq<char>, b: Seq<char>, c: Seq<char>)
    requires
        str_order_spec(a, b) == Order::Less,
        str_order_spec(b, c) == Order::Less,
    ensures
        str_order_spec(a, c) == Order::Less,
{
    lemma_lex_order_trans(encode_utf8(a), encode_utf8(b), encode_utf8(c));
}

/// Compares two byte slices lexicographically.
pub fn bytes_order(a: &[u8], b: &[u8]) -> (r: Order)
    ensures
        r == lex_order(a@, b@),
{
    let mut i: usize = 0;
    assert(a@.skip(0) =~= a@);
    assert(b@.skip(0) =~= b@);
    while i < a.len() && i < b.len()
        invariant
            i <= a.len(),
            i <= b.len(),
            lex_order(a@, b@) == lex_order(a@.skip(i as int), b@.skip(i as int)),
        decreases a.len() - i,
    {
        if a[i] < b[i] {
            return Order::Less;
        } else if a[i] > b[i] {
            return Order::Greater;
        }
        assert(a@.skip(i as int).drop_first() =~= a@.skip(i + 1));
        assert(b@.skip(i as int).drop_first() =~= b@.skip(i + 1));
        i = i + 1;
    }
    if i < a.len() {
        Order::Greater
    } else if i < b.len() {
        Order::Less
    } else {
        Order::Equal
    }
}

/// Compares two strings in Rust's string order.
pub fn str_order(a: &str, b: &str) -> (r: Order)
    ensures
        r == str_order_spec(a@, b@),
{
    bytes_order(a.as_bytes(), b.as_bytes())
}

/// String equality, decided on the strings' bytes.
pub fn str_eq(a: &str, b: &str) -> (r: bool)
    ensures
        r == (a@ == b@),
{
    let c = str_order(a, b);
    proof {
        lemma_str_order_equal(a@, b@);
    }
    c == Order::Equal
}

/// Copies a string.
pub fn copy_string(s: &str) -> (r: String)
    ensures
        r@ == s@,
{
    s.to_owned()
}

} // verus!

verus! {

/// The concatenation of two strings.
pub fn concat_str(a: &str, b: &str) -> (r: String)
    ensures
        r@ == a@ + b@,
{
    let s = a.to_owned();
    s.concat(b)
}

/// The decimal digit character for `d` below ten.
pub open spec fn digit_char(d: nat) -> char {
    (48 + d) as char
}

/// The decimal text of `n`, without leading zeros.
pub open spec fn decimal(n: nat) -> Seq<char>
    decreases n,
{
    if n < 10 {
        seq![digit_char(n)]
    } else {
        decimal(n / 10).push(digit_char(n % 10))
    }
}

fn digit_text(d: u64) -> (r: &'static str)
    requires
        d < 10,
    ensures
        r@ == seq![digit_char(d as nat)],
{
    match d {
        0 => { proof { reveal_strlit("0"); } "0" },
        1 => { proof { reveal_strlit("1"); } "1" },
        2 => { proof { reveal_strlit("2"); } "2" },
        3 => { proof { reveal_strlit("3"); } "3" },
        4 => { proof { reveal_strlit("4"); } "4" },
        5 => { proof { reveal_strlit("5"); } "5" },
        6 => { proof { reveal_strlit("6"); } "6" },
        7 => { proof { reveal_strlit("7"); } "7" },
        8 => { proof { reveal_strlit("8"); } "8" },
        _ => { proof { reveal_strlit("9"); } "9" },
    }
}

/// The decimal text of `n`.
pub fn decimal_text(n: u64) -> (r: String)
    ensures
        r@ == decimal(n as nat),
{
    let mut s = digit_text(n % 10).to_owned();
    let mut m: u64 = n / 10;
    while m > 0
        invariant
            m > 0 ==> decimal(n as nat) == decimal(m as nat) + s@,
            m == 0 ==> decimal(n as nat) == s@,
        decreases m,
    {
        let ghost old_s = s@;
        let d = digit_text(m % 10);
        s = concat_str(d, s.as_str());
        proof {
            if m < 10 {
                assert(decimal(m as nat) =~= seq![digit_char(m as nat)]);
                assert(decimal(n as nat) =~= s@);
            } else {
                assert(decimal(m as nat) == decimal((m / 10) as nat).push(digit_char((m % 10) as nat)));
                assert(decimal(n as nat) =~= decimal((m / 10) as nat) + s@);
            }
        }
        m = m / 10;
    }
    s
}

/// The position of the first occurrence of `x` in `s`.
pub open spec fn first_index<T>(s: Seq<T>, x: T) -> Option<int>
    decreases s.len(),
{
    if s.len() == 0 {
        None
    } else {
        match first_index(s.drop_last(), x) {
            Some(i) => Some(i),
            None => if s.last() == x { Some(s.len() - 1) } else { None },
        }
    }
}

/// Where `x` first occurs in `s`, or that it does not occur.
pub proof fn lemma_first_index<T>(s: Seq<T>, x: T)
    ensures
        match first_index(s, x) {
            Some(i) => 0 <= i < s.len() && s[i] == x && forall|j: int| 0 <= j < i ==> s[j] != x,
            None => !s.contains(x),
        },
    decreases s.len(),
{
    if s.len() > 0 {
        let t = s.drop_last();
        lemma_first_index(t, x);
        assert forall|j: int| 0 <= j < t.len() implies t[j] == s[j] by {}
        if first_index(s, x) is None {
            assert forall|j: int| 0 <= j < s.len() implies s[j] != x by {
                if j < t.len() {
                    assert(!t.contains(x));
                    assert(t[j] == s[j]);
                }
            }
        }
    }
}

} // verus!
