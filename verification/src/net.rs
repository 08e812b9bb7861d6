//! IPv4 addresses in dotted form: parsing, printing, the gateway of a node's pod subnet and the
//! addresses handed out to services.
use vstd::prelude::*;
use crate::errors::SkateError;
use crate::text::{
    all_digits, decimal, digits_value, is_digit, joined, push_char, push_decimal, split_pieces,
    split_text, views, join_with,
};

verus! {

/// The value of one dotted-decimal component: one to three ASCII digits, no leading zero
/// (except `0` itself), at most 255.
pub open spec fn octet_spec(t: Seq<char>) -> Option<u8> {
    if 1 <= t.len() <= 3 && all_digits(t) && !(t.len() > 1 && t[0] == '0') && digits_value(t) <= 255 {
        Some(digits_value(t) as u8)
    } else {
        None
    }
}

/// The four components of an IPv4 address written `a.b.c.d` (`Ipv4Addr::from_str`).
pub open spec fn ipv4_spec(s: Seq<char>) -> Option<(u8, u8, u8, u8)> {
    let ps = split_pieces(s, '.');
    if ps.len() == 4 && octet_spec(ps[0]) is Some && octet_spec(ps[1]) is Some
        && octet_spec(ps[2]) is Some && octet_spec(ps[3]) is Some {
        Some((octet_spec(ps[0])->0, octet_spec(ps[1])->0, octet_spec(ps[2])->0, octet_spec(ps[3])->0))
    } else {
        None
    }
}

/// An IPv4 address in dotted-decimal form.
pub open spec fn ipv4_text(o: (u8, u8, u8, u8)) -> Seq<char> {
    decimal(o.0 as nat) + "."@ + decimal(o.1 as nat) + "."@ + decimal(o.2 as nat) + "."@ + decimal(o.3 as nat)
}

fn parse_octet(t: &str) -> (res: Option<u8>)
    ensures
        res == octet_spec(t@),
{
    let n = t.unicode_len();
    if n < 1 || n > 3 {
        return None;
    }
    let mut acc: u32 = 0;
    let mut i: usize = 0;
    while i < n
        invariant
            n == t@.len(),
            1 <= n <= 3,
            i <= n,
            forall|j: int| 0 <= j < i ==> is_digit(#[trigger] t@[j]),
            acc == digits_value(t@.take(i as int)),
            i == 0 ==> acc == 0,
            i == 1 ==> acc < 10,
            i == 2 ==> acc < 100,
        decreases n - i,
    {
        let c = t.get_char(i);
        if !('0' <= c && c <= '9') {
            assert(!is_digit(t@[i as int]));
            return None;
        }
        proof {
            assert(t@.take(i + 1).drop_last() =~= t@.take(i as int));
            assert(t@.take(i + 1).last() == c);
            if i == 0 {
                assert(t@.take(0) =~= Seq::<char>::empty());
            }
            assert(i < 3);
        }
        acc = acc * 10 + (c as u32 - 48);
        i = i + 1;
    }
    assert(t@.take(n as int) =~= t@);
    assert(all_digits(t@));
    if n > 1 && t.get_char(0) == '0' {
        return None;
    }
    if acc > 255 {
        return None;
    }
    Some(acc as u8)
}

/// Parses an IPv4 address in dotted-decimal form.
pub fn parse_ipv4(s: &str) -> (res: Option<(u8, u8, u8, u8)>)
    ensures
        res == ipv4_spec(s@),
{
    let parts = split_text(s, '.');
    if parts.len() != 4 {
        return None;
    }
    proof {
        assert(views(parts@)[0] == parts@[0]@);
        assert(views(parts@)[1] == parts@[1]@);
        assert(views(parts@)[2] == parts@[2]@);
        assert(views(parts@)[3] == parts@[3]@);
    }
    let a = parse_octet(parts[0].as_str());
    let b = parse_octet(parts[1].as_str());
    let c = parse_octet(parts[2].as_str());
    let d = parse_octet(parts[3].as_str());
    match (a, b, c, d) {
        (Some(a), Some(b), Some(c), Some(d)) => Some((a, b, c, d)),
        _ => None,
    }
}

/// Renders an IPv4 address in dotted-decimal form (`Ipv4Addr::to_string`).
pub fn ipv4_to_text(o: (u8, u8, u8, u8)) -> (res: String)
    ensures
        res@ == ipv4_text(o),
{
    let mut s = String::new();
    push_decimal(&mut s, o.0 as u64);
    push_char(&mut s, '.');
    push_decimal(&mut s, o.1 as u64);
    push_char(&mut s, '.');
    push_decimal(&mut s, o.2 as u64);
    push_char(&mut s, '.');
    push_decimal(&mut s, o.3 as u64);
    proof {
        reveal_strlit(".");
        assert(s@ =~= ipv4_text(o));
    }
    s
}

/// The first address of the service range `10.30.0.0/16`; it is kept for the empty virtual
/// server of the root keepalived configuration, so services start after it.
pub open spec fn service_subnet_start() -> (u8, u8, u8, u8) {
    (10, 30, 0, 1)
}

/// The address that follows the last one handed out in the service range: the last octet
/// counts up to 255, then the third octet moves on; `None` once `x.y.255.255` is reached.
pub open spec fn next_service_ip_spec(last: Seq<char>) -> Option<(u8, u8, u8, u8)> {
    let o = match ipv4_spec(last) {
        Some(o) => o,
        None => service_subnet_start(),
    };
    if o.3 == 255 {
        if o.2 == 255 {
            None
        } else {
            Some((o.0, o.1, (o.2 + 1) as u8, 0))
        }
    } else {
        Some((o.0, o.1, o.2, (o.3 + 1) as u8))
    }
}

/// The next service address after the one last recorded (`last`, the recorded text, which is
/// empty or not an address when none was recorded yet: counting then starts at
/// `10.30.0.1`). Fails once the range is used up.
pub fn next_service_ip(last: &str) -> (res: Result<String, SkateError>)
    ensures
        match next_service_ip_spec(last@) {
            Some(o) => res matches Ok(t) && t@ == ipv4_text(o),
            None => res matches Err(e) && e.message() == "no more ips available on subnet 10.30.0.1/16"@,
        },
{
    let o = match parse_ipv4(last) {
        Some(o) => o,
        None => (10u8, 30u8, 0u8, 1u8),
    };
    if o.3 == 255 {
        if o.2 == 255 {
            return Err(SkateError::msg("no more ips available on subnet 10.30.0.1/16"));
        }
        Ok(ipv4_to_text((o.0, o.1, o.2 + 1, 0)))
    } else {
        Ok(ipv4_to_text((o.0, o.1, o.2, o.3 + 1)))
    }
}

/// The gateway of a node's pod subnet: the first three dotted components of the subnet, then
/// `.1` (for `10.1.2.0/24`, `10.1.2.1`).
pub open spec fn gateway_spec(cidr: Seq<char>) -> Seq<char> {
    let ps = split_pieces(cidr, '.');
    let k = if ps.len() < 3 { ps.len() as int } else { 3 };
    joined(ps.take(k), "."@) + ".1"@
}

/// The gateway of a node's pod subnet (see `gateway_spec`).
pub fn gateway_for_subnet(cidr: &str) -> (res: String)
    ensures
        res@ == gateway_spec(cidr@),
{
    let parts = split_text(cidr, '.');
    let mut first: Vec<String> = Vec::new();
    let mut i: usize = 0;
    while i < parts.len() && i < 3
        invariant
            i <= parts@.len(),
            i <= 3,
            views(first@) == views(parts@).take(i as int),
        decreases parts.len() - i,
    {
        let ghost before = views(first@);
        first.push(parts[i].clone());
        proof {
            assert(views(first@) =~= before.push(parts@[i as int]@));
            assert(views(parts@).take(i + 1) =~= views(parts@).take(i as int).push(views(parts@)[i as int]));
        }
        i = i + 1;
    }
    let mut g = join_with(&first, ".");
    g.append(".1");
    g
}

/// Whether a text is an IPv4 range in CIDR form: an address, `/`, and a prefix length of one
/// or two digits, at most 32.
pub open spec fn cidr_spec(s: Seq<char>) -> bool {
    let ps = split_pieces(s, '/');
    &&& ps.len() == 2
    &&& ipv4_spec(ps[0]) is Some
    &&& 1 <= ps[1].len() <= 2
    &&& all_digits(ps[1])
    &&& digits_value(ps[1]) <= 32
}

/// Whether a text is an IPv4 range in CIDR form (see `cidr_spec`).
pub fn is_ipv4_cidr(s: &str) -> (res: bool)
    ensures
        res == cidr_spec(s@),
{
    let parts = split_text(s, '/');
    if parts.len() != 2 {
        return false;
    }
    proof {
        assert(views(parts@)[0] == parts@[0]@);
        assert(views(parts@)[1] == parts@[1]@);
    }
    if parse_ipv4(parts[0].as_str()).is_none() {
        return false;
    }
    let p = parts[1].as_str();
    let n = p.unicode_len();
    if n < 1 || n > 2 {
        return false;
    }
    let c0 = p.get_char(0);
    if !('0' <= c0 && c0 <= '9') {
        assert(!is_digit(p@[0]));
        return false;
    }
    let mut v: u32 = c0 as u32 - 48;
    proof {
        assert(p@.take(1).drop_last() =~= Seq::<char>::empty());
        assert(p@.take(1).last() == c0);
        assert(digits_value(Seq::<char>::empty()) == 0);
        assert(digits_value(p@.take(1)) == v);
    }
    if n == 2 {
        let c1 = p.get_char(1);
        if !('0' <= c1 && c1 <= '9') {
            assert(!is_digit(p@[1]));
            return false;
        }
        proof {
            assert(p@.drop_last() =~= p@.take(1));
        }
        v = v * 10 + (c1 as u32 - 48);
    } else {
        assert(p@.take(1) =~= p@);
    }
    v <= 32
}

proof fn lemma_split_concat(x: Seq<char>, y: Seq<char>, c: char)
    ensures
        split_pieces(x + seq![c] + y, c) == split_pieces(x, c) + split_pieces(y, c),
    decreases y.len(),
{
    let s = x + seq![c] + y;
    if y.len() == 0 {
        assert(s.drop_last() =~= x);
        assert(split_pieces(y, c) =~= seq![Seq::<char>::empty()]);
        assert(split_pieces(s, c) =~= split_pieces(x, c) + split_pieces(y, c));
    } else {
        lemma_split_concat(x, y.drop_last(), c);
        assert(s.drop_last() =~= x + seq![c] + y.drop_last());
        assert(s.last() == y.last());
        crate::text::lemma_split_pieces_nonempty(y.drop_last(), c);
        let a = split_pieces(x, c);
        let b = split_pieces(y.drop_last(), c);
        if y.last() == c {
            assert(split_pieces(s, c) =~= a + split_pieces(y, c));
        } else {
            let r = a + b;
            assert(r.update(r.len() - 1, r.last().push(c)) == r.update(r.len() - 1, r.last().push(c)));
            assert(split_pieces(y, c) == b.update(b.len() - 1, b.last().push(y.last())));
            assert(split_pieces(s, c) =~= a + split_pieces(y, c));
        }
    }
}

proof fn lemma_split_without(x: Seq<char>, c: char)
    requires
        forall|i: int| 0 <= i < x.len() ==> x[i] != c,
    ensures
        split_pieces(x, c) == seq![x],
    decreases x.len(),
{
    if x.len() > 0 {
        lemma_split_without(x.drop_last(), c);
        assert(x.last() != c);
        assert(x.drop_last().push(x.last()) =~= x);
        assert(x.drop_last() == x.drop_last());
        assert(split_pieces(x, c) =~= seq![x]);
    } else {
        assert(x =~= Seq::<char>::empty());
        assert(split_pieces(x, c) =~= seq![x]);
    }
}

proof fn lemma_decimal_octet(n: nat)
    requires
        n < 1000,
    ensures
        all_digits(decimal(n)),
        digits_value(decimal(n)) == n,
        1 <= decimal(n).len(),
        n < 10 ==> decimal(n).len() == 1,
        n < 100 ==> decimal(n).len() <= 2,
        decimal(n).len() <= 3,
        n >= 1 ==> decimal(n)[0] != '0',
        forall|i: int| 0 <= i < decimal(n).len() ==> decimal(n)[i] != '.',
    decreases n,
{
    if n < 10 {
        assert(decimal(n) == seq![crate::text::digit_char(n)]);
        assert(decimal(n).drop_last() =~= Seq::<char>::empty());
        assert(digits_value(Seq::<char>::empty()) == 0);
    } else {
        let q = n / 10;
        let r = n % 10;
        lemma_decimal_octet(q);
        let d = decimal(q);
        assert(decimal(n) == d.push(crate::text::digit_char(r)));
        assert(decimal(n).drop_last() =~= d);
        assert(n == q * 10 + r);
        assert(decimal(n)[0] == d[0]);
    }
}

proof fn lemma_octet_of_decimal(o: u8)
    ensures
        octet_spec(decimal(o as nat)) == Some(o),
        forall|i: int| 0 <= i < decimal(o as nat).len() ==> decimal(o as nat)[i] != '.',
{
    lemma_decimal_octet(o as nat);
}

/// An address written in dotted-decimal form reads back as the same address, so the service
/// address recorded after one allocation is the one the next allocation counts on from.
#[verifier::rlimit(40)]
pub proof fn lemma_ipv4_text_round_trip(o: (u8, u8, u8, u8))
    ensures
        ipv4_spec(ipv4_text(o)) == Some(o),
{
    let d0 = decimal(o.0 as nat);
    let d1 = decimal(o.1 as nat);
    let d2 = decimal(o.2 as nat);
    let d3 = decimal(o.3 as nat);
    let t23 = d2 + seq!['.'] + d3;
    let t123 = d1 + seq!['.'] + t23;
    assert(split_pieces(t23, '.') =~= seq![d2, d3]) by {
        lemma_octet_of_decimal(o.2);
        lemma_octet_of_decimal(o.3);
        lemma_split_without(d2, '.');
        lemma_split_without(d3, '.');
        lemma_split_concat(d2, d3, '.');
    }
    assert(split_pieces(t123, '.') =~= seq![d1, d2, d3]) by {
        lemma_octet_of_decimal(o.1);
        lemma_split_without(d1, '.');
        lemma_split_concat(d1, t23, '.');
    }
    assert(split_pieces(ipv4_text(o), '.') =~= seq![d0, d1, d2, d3]) by {
        reveal_strlit(".");
        lemma_octet_of_decimal(o.0);
        lemma_split_without(d0, '.');
        lemma_split_concat(d0, t123, '.');
        assert(ipv4_text(o) =~= d0 + seq!['.'] + t123);
    }
    lemma_octet_of_decimal(o.0);
    lemma_octet_of_decimal(o.1);
    lemma_octet_of_decimal(o.2);
    lemma_octet_of_decimal(o.3);
}

/// The gateway of a pod subnet written `a.b.c.rest` (each of `a`, `b`, `c` without a dot) is
/// `a.b.c.1`, whatever follows the third dot (for `10.1.0.0/16`, `10.1.0.1`).
pub proof fn lemma_gateway_of_subnet(a: Seq<char>, b: Seq<char>, c: Seq<char>, rest: Seq<char>)
    requires
        forall|i: int| 0 <= i < a.len() ==> a[i] != '.',
        forall|i: int| 0 <= i < b.len() ==> b[i] != '.',
        forall|i: int| 0 <= i < c.len() ==> c[i] != '.',
    ensures
        gateway_spec(a + "."@ + b + "."@ + c + "."@ + rest) == a + "."@ + b + "."@ + c + ".1"@,
{
    reveal_strlit(".");
    reveal_strlit(".1");
    let dot = seq!['.'];
    let t3 = c + dot + rest;
    let t2 = b + dot + t3;
    let t1 = a + dot + t2;
    assert(a + "."@ + b + "."@ + c + "."@ + rest =~= t1);
    lemma_split_without(a, '.');
    lemma_split_without(b, '.');
    lemma_split_without(c, '.');
    lemma_split_concat(c, rest, '.');
    lemma_split_concat(b, t3, '.');
    lemma_split_concat(a, t2, '.');
    crate::text::lemma_split_pieces_nonempty(rest, '.');
    let ps = split_pieces(t1, '.');
    assert(ps =~= seq![a, b, c] + split_pieces(rest, '.'));
    assert(ps.take(3) =~= seq![a, b, c]);
    let first = seq![a, b, c];
    assert(first.drop_last() =~= seq![a, b]);
    assert(seq![a, b].drop_last() =~= seq![a]);
    assert(joined(seq![a], "."@) == a);
    assert(seq![a, b].last() == b);
    assert(joined(seq![a, b], "."@) == joined(seq![a], "."@) + "."@ + b);
    assert(first.last() == c);
    assert(joined(first, "."@) == joined(seq![a, b], "."@) + "."@ + c);
    assert(joined(first, "."@) =~= a + "."@ + b + "."@ + c);
    assert(gateway_spec(t1) =~= a + "."@ + b + "."@ + c + ".1"@);
}

/// An address as one number, most significant octet first.
pub open spec fn address_value(o: (u8, u8, u8, u8)) -> int {
    o.0 * 16777216 + o.1 * 65536 + o.2 * 256 + o.3
}

/// Service addresses are handed out one after the other: after an address recorded in
/// dotted-decimal form, the next one is that address plus one, and the recorded text of the
/// next one leads to the one after it; only the last address of a `x.y` range has no successor.
pub proof fn lemma_service_ips_consecutive(o: (u8, u8, u8, u8))
    ensures
        next_service_ip_spec(ipv4_text(o)) is None <==> (o.2 == 255 && o.3 == 255),
        next_service_ip_spec(ipv4_text(o)) matches Some(p) ==> address_value(p) == address_value(o) + 1
            && p.0 == o.0 && p.1 == o.1,
{
    lemma_ipv4_text_round_trip(o);
}

} // verus!
