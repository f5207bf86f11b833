//! Addresses and URLs of a service.
use vstd::prelude::*;
use vstd::utf8::encode_utf8;

use crate::encoding::{
    percent_decoded_bytes, percent_encode, percent_encoded, percent_encoding_decodes,
};
use crate::numbers::{
    decimal, decimal_is_injective, decimal_text, is_digit, lemma_decimal_digits, parse_unsigned,
    decimal_reads_back, unsigned_value,
};
use crate::text::{
    blank, char_index, chars_of, contains, index_where, is_blank, joined, lemma_already_trimmed,
    lemma_index_where, lines, lines_of, option_str_view, owned, str_eq, string_of, trim, trimmed,
    views, words, words_of,
};

verus! {

/// The address of a network interface. The text of an IPv6 address is its
/// canonical form, so that equal addresses have equal texts.
#[derive(Debug, PartialEq, Eq)]
pub enum IpAddr {
    V4(u8, u8, u8, u8),
    V6(String),
}

/// What an address is, apart from how it is held.
pub enum IpAddrView {
    V4(u8, u8, u8, u8),
    V6(Seq<char>),
}

impl View for IpAddr {
    type V = IpAddrView;

    open spec fn view(&self) -> IpAddrView {
        match self {
            IpAddr::V4(a, b, c, d) => IpAddrView::V4(*a, *b, *c, *d),
            IpAddr::V6(text) => IpAddrView::V6(text@),
        }
    }
}

/// An IPv4 address in dotted decimal.
pub open spec fn ipv4_text(a: u8, b: u8, c: u8, d: u8) -> Seq<char> {
    decimal(a as nat) + "."@ + decimal(b as nat) + "."@ + decimal(c as nat) + "."@ + decimal(
        d as nat,
    )
}

/// A character of the text of an IPv6 address.
pub open spec fn ipv6_char(c: char) -> bool {
    is_digit(c) || 'a' <= c <= 'f' || 'A' <= c <= 'F' || c == ':' || c == '.'
}

/// A text that an IPv6 address can have: hexadecimal digits, colons and dots, and
/// at least one colon.
pub open spec fn ipv6_form(text: Seq<char>) -> bool {
    text.contains(':') && forall|i: int| 0 <= i < text.len() ==> ipv6_char(#[trigger] text[i])
}

impl IpAddrView {
    /// The text of an IPv6 address is one that such an address can have.
    pub open spec fn valid(self) -> bool {
        self matches IpAddrView::V6(text) ==> ipv6_form(text)
    }

    /// The text of an address.
    pub open spec fn text(self) -> Seq<char> {
        match self {
            IpAddrView::V4(a, b, c, d) => ipv4_text(a, b, c, d),
            IpAddrView::V6(text) => text,
        }
    }

    /// An address that stands for every interface.
    pub open spec fn unspecified(self) -> bool {
        match self {
            IpAddrView::V4(a, b, c, d) => a == 0 && b == 0 && c == 0 && d == 0,
            IpAddrView::V6(text) => text == "::"@,
        }
    }

    /// An address that stays inside the machine.
    pub open spec fn loopback(self) -> bool {
        match self {
            IpAddrView::V4(a, _, _, _) => a == 127,
            IpAddrView::V6(text) => text == "::1"@,
        }
    }

    /// An address of the range 100.64.0.0/10, which Tailscale hands out.
    pub open spec fn tailscale(self) -> bool {
        match self {
            IpAddrView::V4(a, b, _, _) => a == 100 && 64 <= b <= 127,
            IpAddrView::V6(_) => false,
        }
    }
}

impl Clone for IpAddr {
    fn clone(&self) -> (copy: Self)
        ensures
            copy == *self,
    {
        match self {
            IpAddr::V4(a, b, c, d) => IpAddr::V4(*a, *b, *c, *d),
            IpAddr::V6(text) => IpAddr::V6(text.clone()),
        }
    }
}

impl IpAddr {
    pub fn same(&self, other: &IpAddr) -> (result: bool)
        ensures
            result == (self@ == other@),
    {
        match (self, other) {
            (IpAddr::V4(a, b, c, d), IpAddr::V4(e, f, g, h)) => *a == *e && *b == *f && *c == *g
                && *d == *h,
            (IpAddr::V6(left), IpAddr::V6(right)) => str_eq(left.as_str(), right.as_str()),
            _ => false,
        }
    }

    pub fn to_text(&self) -> (text: String)
        ensures
            text@ == self@.text(),
    {
        match self {
            IpAddr::V4(a, b, c, d) => ipv4_to_text(*a, *b, *c, *d),
            IpAddr::V6(text) => text.clone(),
        }
    }

    pub fn is_unspecified(&self) -> (result: bool)
        ensures
            result == self@.unspecified(),
    {
        match self {
            IpAddr::V4(a, b, c, d) => *a == 0 && *b == 0 && *c == 0 && *d == 0,
            IpAddr::V6(text) => str_eq(text.as_str(), "::"),
        }
    }

    pub fn is_loopback(&self) -> (result: bool)
        ensures
            result == self@.loopback(),
    {
        match self {
            IpAddr::V4(a, _, _, _) => *a == 127,
            IpAddr::V6(text) => str_eq(text.as_str(), "::1"),
        }
    }
}

/// The address of the machine itself.
pub fn localhost() -> (address: IpAddr)
    ensures
        address@ == IpAddrView::V4(127, 0, 0, 1),
{
    IpAddr::V4(127, 0, 0, 1)
}

fn ipv4_to_text(a: u8, b: u8, c: u8, d: u8) -> (text: String)
    ensures
        text@ == ipv4_text(a, b, c, d),
{
    let mut text = decimal_text(a as u64);
    text.append(".");
    text.append(decimal_text(b as u64).as_str());
    text.append(".");
    text.append(decimal_text(c as u64).as_str());
    text.append(".");
    text.append(decimal_text(d as u64).as_str());
    text
}

proof fn lemma_part(s: Seq<char>, from: int, n: nat)
    requires
        0 <= from,
        from + decimal(n).len() <= s.len(),
        s.subrange(from, from + decimal(n).len()) == decimal(n),
        from + decimal(n).len() == s.len() || s[from + decimal(n).len()] == '.',
    ensures
        index_where(s, from, |c: char| c == '.') == from + decimal(n).len(),
{
    let p = |c: char| c == '.';
    let end = index_where(s, from, p);
    lemma_index_where(s, from, p);
    lemma_decimal_digits(n);
    if end < from + decimal(n).len() {
        assert(s[end] == decimal(n)[end - from]);
        assert(is_digit(decimal(n)[end - from]));
    }
    if end > from + decimal(n).len() {
        assert(!p(s[from + decimal(n).len()]));
    }
}

proof fn lemma_parts(s: Seq<char>, a: u8, b: u8, c: u8, d: u8)
    requires
        s == ipv4_text(a, b, c, d),
    ensures
        ({
            let p = |x: char| x == '.';
            let i = decimal(a as nat).len() as int;
            let j = i + 1 + decimal(b as nat).len();
            let k = j + 1 + decimal(c as nat).len();
            &&& index_where(s, 0, p) == i
            &&& index_where(s, i + 1, p) == j
            &&& index_where(s, j + 1, p) == k
            &&& index_where(s, k + 1, p) == s.len()
            &&& i < s.len() && j < s.len() && k < s.len()
            &&& s.subrange(0, i) == decimal(a as nat)
            &&& s.subrange(i + 1, j) == decimal(b as nat)
            &&& s.subrange(j + 1, k) == decimal(c as nat)
            &&& s.subrange(k + 1, s.len() as int) == decimal(d as nat)
        }),
{
    reveal_strlit(".");
    let i = decimal(a as nat).len() as int;
    let j = i + 1 + decimal(b as nat).len();
    let k = j + 1 + decimal(c as nat).len();
    assert(s.len() == k + 1 + decimal(d as nat).len());
    assert(s.subrange(0, i) =~= decimal(a as nat));
    assert(s.subrange(i + 1, j) =~= decimal(b as nat));
    assert(s.subrange(j + 1, k) =~= decimal(c as nat));
    assert(s.subrange(k + 1, s.len() as int) =~= decimal(d as nat));
    assert(s[i] == '.' && s[j] == '.' && s[k] == '.');
    lemma_part(s, 0, a as nat);
    lemma_part(s, i + 1, b as nat);
    lemma_part(s, j + 1, c as nat);
    lemma_part(s, k + 1, d as nat);
}

/// Two IPv4 addresses with the same text are the same address.
pub proof fn ipv4_text_is_injective(
    a: (u8, u8, u8, u8),
    b: (u8, u8, u8, u8),
)
    requires
        ipv4_text(a.0, a.1, a.2, a.3) == ipv4_text(b.0, b.1, b.2, b.3),
    ensures
        a == b,
{
    let s = ipv4_text(a.0, a.1, a.2, a.3);
    lemma_parts(s, a.0, a.1, a.2, a.3);
    lemma_parts(s, b.0, b.1, b.2, b.3);
    decimal_is_injective(a.0 as nat, b.0 as nat);
    decimal_is_injective(a.1 as nat, b.1 as nat);
    decimal_is_injective(a.2 as nat, b.2 as nat);
    decimal_is_injective(a.3 as nat, b.3 as nat);
}

/// The octet between two positions of a text.
fn octet(chars: &Vec<char>, from: usize, to: usize) -> (result: Option<u8>)
    requires
        from <= to <= chars@.len(),
    ensures
        match result {
            Some(value) => unsigned_value(
                chars@.subrange(from as int, to as int),
                255,
            ) == Some(value as nat),
            None => unsigned_value(chars@.subrange(from as int, to as int), 255) is None,
        },
{
    let text = string_of(chars, from, to);
    match parse_unsigned(text.as_str(), 255) {
        Some(value) => Some(value as u8),
        None => None,
    }
}

/// The octets of an IPv4 address in dotted decimal, without the demand that
/// they are written without leading zeros and signs.
fn dotted_octets(chars: &Vec<char>) -> (result: Option<(u8, u8, u8, u8)>)
    ensures
        forall|a: u8, b: u8, c: u8, d: u8|
            chars@ == #[trigger] ipv4_text(a, b, c, d) ==> result == Some((a, b, c, d)),
{
    let i = char_index(chars, 0, '.');
    proof {
        assert forall|a: u8, b: u8, c: u8, d: u8|
            chars@ == #[trigger] ipv4_text(a, b, c, d) implies i < chars@.len() && unsigned_value(
            chars@.subrange(0, i as int),
            255,
        ) == Some(a as nat) by {
            lemma_parts(chars@, a, b, c, d);
            decimal_reads_back(a as nat, 255);
        }
    }
    if i == chars.len() {
        return None;
    }
    let j = char_index(chars, i + 1, '.');
    proof {
        assert forall|a: u8, b: u8, c: u8, d: u8|
            chars@ == #[trigger] ipv4_text(a, b, c, d) implies j < chars@.len() && unsigned_value(
            chars@.subrange(i + 1, j as int),
            255,
        ) == Some(b as nat) by {
            lemma_parts(chars@, a, b, c, d);
            decimal_reads_back(b as nat, 255);
        }
    }
    if j == chars.len() {
        return None;
    }
    let k = char_index(chars, j + 1, '.');
    proof {
        assert forall|a: u8, b: u8, c: u8, d: u8|
            chars@ == #[trigger] ipv4_text(a, b, c, d) implies k < chars@.len() && unsigned_value(
            chars@.subrange(j + 1, k as int),
            255,
        ) == Some(c as nat) && unsigned_value(
            chars@.subrange(k + 1, chars@.len() as int),
            255,
        ) == Some(d as nat) by {
            lemma_parts(chars@, a, b, c, d);
            decimal_reads_back(c as nat, 255);
            decimal_reads_back(d as nat, 255);
        }
    }
    if k == chars.len() {
        return None;
    }
    match (
        octet(chars, 0, i),
        octet(chars, i + 1, j),
        octet(chars, j + 1, k),
        octet(chars, k + 1, chars.len()),
    ) {
        (Some(a), Some(b), Some(c), Some(d)) => Some((a, b, c, d)),
        _ => None,
    }
}

/// Reads an IPv4 address: the text is that of the address, to the letter.
pub fn parse_ipv4(s: &str) -> (result: Option<IpAddr>)
    ensures
        match result {
            Some(address) => address is V4 && s@ == address@.text(),
            None => forall|a: u8, b: u8, c: u8, d: u8| s@ != #[trigger] ipv4_text(a, b, c, d),
        },
{
    let chars = chars_of(s);
    match dotted_octets(&chars) {
        Some((a, b, c, d)) => {
            if str_eq(ipv4_to_text(a, b, c, d).as_str(), s) {
                Some(IpAddr::V4(a, b, c, d))
            } else {
                None
            }
        },
        None => None,
    }
}

/// The IPv4 address that a text spells in dotted decimal.
pub open spec fn ipv4_of(s: Seq<char>) -> Option<IpAddrView> {
    if exists|a: u8, b: u8, c: u8, d: u8| s == #[trigger] ipv4_text(a, b, c, d) {
        let (a, b, c, d) = choose|a: u8, b: u8, c: u8, d: u8|
            s == #[trigger] ipv4_text(a, b, c, d);
        Some(IpAddrView::V4(a, b, c, d))
    } else {
        None
    }
}

/// What an optional address is.
pub open spec fn address_view(address: Option<IpAddr>) -> Option<IpAddrView> {
    match address {
        Some(ip) => Some(ip@),
        None => None,
    }
}

/// Tells whether a text is one that an IPv6 address can have.
fn is_ipv6_form(text: &str) -> (result: bool)
    ensures
        result == ipv6_form(text@),
{
    let chars = chars_of(text);
    let mut colon = false;
    let mut i: usize = 0;
    while i < chars.len()
        invariant
            i <= chars@.len(),
            chars@ == text@,
            colon == chars@.take(i as int).contains(':'),
            forall|j: int| 0 <= j < i ==> ipv6_char(#[trigger] chars@[j]),
        decreases chars@.len() - i,
    {
        let c = chars[i];
        let digit = '0' <= c && c <= '9';
        let letter = ('a' <= c && c <= 'f') || ('A' <= c && c <= 'F');
        if !(digit || letter || c == ':' || c == '.') {
            assert(!ipv6_char(text@[i as int]));
            return false;
        }
        let ghost before = chars@.take(i as int);
        let ghost after = chars@.take(i + 1);
        proof {
            assert(after =~= before.push(c));
            if before.contains(':') {
                let k = choose|k: int| 0 <= k < before.len() && before[k] == ':';
                assert(after[k] == ':');
            }
            if c == ':' {
                assert(after[i as int] == ':');
            } else if after.contains(':') {
                let k = choose|k: int| 0 <= k < after.len() && after[k] == ':';
                assert(before[k] == ':');
            }
        }
        colon = colon || c == ':';
        i += 1;
    }
    assert(chars@.take(i as int) =~= text@);
    colon
}

/// The address that a text gives: an IPv4 address, or an IPv6 address whose
/// canonical form is known.
pub open spec fn ip_of(s: Seq<char>, ipv6: Option<Seq<char>>) -> Option<IpAddrView> {
    match ipv4_of(s) {
        Some(address) => Some(address),
        None => match ipv6 {
            Some(form) => if ipv6_form(form) {
                Some(IpAddrView::V6(form))
            } else {
                None
            },
            None => None,
        },
    }
}

/// Reads an address. `ipv6` is the canonical form of the IPv6 address that the
/// text spells, if it spells one.
pub fn parse_ip(s: &str, ipv6: Option<&str>) -> (result: Option<IpAddr>)
    ensures
        address_view(result) == ip_of(s@, option_str_view(ipv6)),
        result matches Some(address) ==> address@.valid(),
{
    match parse_ipv4(s) {
        Some(address) => {
            proof {
                let (a, b, c, d) = choose|a: u8, b: u8, c: u8, d: u8|
                    s@ == #[trigger] ipv4_text(a, b, c, d);
                assert(s@ == ipv4_text(
                    address->V4_0,
                    address->V4_1,
                    address->V4_2,
                    address->V4_3,
                ));
                ipv4_text_is_injective(
                    (a, b, c, d),
                    (address->V4_0, address->V4_1, address->V4_2, address->V4_3),
                );
            }
            Some(address)
        },
        None => match ipv6 {
            Some(form) => if is_ipv6_form(form) {
                Some(IpAddr::V6(owned(form)))
            } else {
                None
            },
            None => None,
        },
    }
}

/// Two addresses with the same text are the same address.
pub proof fn address_text_is_injective(a: IpAddrView, b: IpAddrView)
    requires
        a.valid(),
        b.valid(),
        a.text() == b.text(),
    ensures
        a == b,
{
    match (a, b) {
        (IpAddrView::V4(a1, a2, a3, a4), IpAddrView::V4(b1, b2, b3, b4)) => {
            ipv4_text_is_injective((a1, a2, a3, a4), (b1, b2, b3, b4));
        },
        (IpAddrView::V4(a1, a2, a3, a4), IpAddrView::V6(_)) => {
            lemma_ipv4_has_no_colon(a1, a2, a3, a4);
        },
        (IpAddrView::V6(_), IpAddrView::V4(b1, b2, b3, b4)) => {
            lemma_ipv4_has_no_colon(b1, b2, b3, b4);
        },
        (IpAddrView::V6(_), IpAddrView::V6(_)) => {},
    }
}

/// The text of an IPv4 address holds no colon.
proof fn lemma_ipv4_has_no_colon(a: u8, b: u8, c: u8, d: u8)
    ensures
        !ipv4_text(a, b, c, d).contains(':'),
{
    reveal_strlit(".");
    lemma_decimal_digits(a as nat);
    lemma_decimal_digits(b as nat);
    lemma_decimal_digits(c as nat);
    lemma_decimal_digits(d as nat);
    let s = ipv4_text(a, b, c, d);
    lemma_parts(s, a, b, c, d);
    let i = decimal(a as nat).len() as int;
    let j = i + 1 + decimal(b as nat).len();
    let k = j + 1 + decimal(c as nat).len();
    assert forall|n: int| 0 <= n < s.len() implies #[trigger] s[n] != ':' by {
        if n < i {
            assert(s[n] == s.subrange(0, i)[n]);
            assert(is_digit(decimal(a as nat)[n]));
        } else if i < n < j {
            assert(s[n] == s.subrange(i + 1, j)[n - i - 1]);
            assert(is_digit(decimal(b as nat)[n - i - 1]));
        } else if j < n < k {
            assert(s[n] == s.subrange(j + 1, k)[n - j - 1]);
            assert(is_digit(decimal(c as nat)[n - j - 1]));
        } else if k < n {
            assert(s[n] == s.subrange(k + 1, s.len() as int)[n - k - 1]);
            assert(is_digit(decimal(d as nat)[n - k - 1]));
        } else {
            assert(s[i] == '.' && s[j] == '.' && s[k] == '.');
        }
    }
}

/// The text of an IPv4 address is read back as that address.
pub proof fn ipv4_reads_back(a: u8, b: u8, c: u8, d: u8, ipv6: Option<Seq<char>>)
    ensures
        ip_of(ipv4_text(a, b, c, d), ipv6) == Some(IpAddrView::V4(a, b, c, d)),
{
    let s = ipv4_text(a, b, c, d);
    let (e, f, g, h) = choose|e: u8, f: u8, g: u8, h: u8|
        s == #[trigger] ipv4_text(e, f, g, h);
    ipv4_text_is_injective((a, b, c, d), (e, f, g, h));
}

/// A text that is an address of the range that Tailscale hands out.
pub open spec fn tailscale_host(host: Seq<char>) -> bool {
    exists|b: u8, c: u8, d: u8| 64 <= b <= 127 && host == #[trigger] ipv4_text(100, b, c, d)
}

pub fn is_tailscale_ip(ip: &IpAddr) -> (result: bool)
    ensures
        result == ip@.tailscale(),
{
    match ip {
        IpAddr::V4(a, b, _, _) => {
            let b: u8 = *b;
            assert((b & 192u8 == 64u8) <==> (64u8 <= b && b <= 127u8)) by (bit_vector);
            *a == 100 && (b & 0b1100_0000) == 0b0100_0000
        },
        IpAddr::V6(_) => false,
    }
}

pub fn is_tailscale_host(host: &str) -> (result: bool)
    ensures
        result == tailscale_host(host@),
{
    match parse_ipv4(host) {
        Some(address) => {
            proof {
                if address@.tailscale() {
                    assert(host@ == ipv4_text(100, address->V4_1, address->V4_2, address->V4_3));
                }
                if tailscale_host(host@) {
                    let (b, c, d) = choose|b: u8, c: u8, d: u8|
                        64 <= b <= 127 && host@ == #[trigger] ipv4_text(100, b, c, d);
                    ipv4_text_is_injective(
                        (100, b, c, d),
                        (address->V4_0, address->V4_1, address->V4_2, address->V4_3),
                    );
                }
            }
            is_tailscale_ip(&address)
        },
        None => false,
    }
}

/// The first of a list of texts that is a Tailscale address.
pub open spec fn first_tailscale(texts: Seq<Seq<char>>) -> Option<Seq<char>>
    decreases texts.len(),
{
    if texts.len() == 0 {
        None
    } else if tailscale_host(texts[0]) {
        Some(texts[0])
    } else {
        first_tailscale(texts.drop_first())
    }
}

/// The text of an optional address.
pub open spec fn address_text(address: Option<IpAddr>) -> Option<Seq<char>> {
    match address {
        Some(ip) => Some(ip@.text()),
        None => None,
    }
}

fn first_tailscale_address(texts: &Vec<String>) -> (result: Option<IpAddr>)
    ensures
        address_text(result) == first_tailscale(views(texts@)),
        result matches Some(ip) ==> ip@.tailscale(),
{
    let ghost all = views(texts@);
    let mut i: usize = 0;
    assert(all.skip(0) =~= all);
    while i < texts.len()
        invariant
            i <= texts@.len(),
            all == views(texts@),
            first_tailscale(all) == first_tailscale(all.skip(i as int)),
        decreases texts@.len() - i,
    {
        let text = texts[i].as_str();
        assert(all.skip(i as int)[0] == text@);
        assert(all.skip(i as int).drop_first() =~= all.skip(i + 1));
        if is_tailscale_host(text) {
            let address = parse_ipv4(text);
            proof {
                let (b, c, d) = choose|b: u8, c: u8, d: u8|
                    64 <= b <= 127 && text@ == #[trigger] ipv4_text(100, b, c, d);
                assert(address is Some);
                let ip = address->Some_0;
                ipv4_text_is_injective(
                    (100, b, c, d),
                    (ip->V4_0, ip->V4_1, ip->V4_2, ip->V4_3),
                );
            }
            return address;
        }
        i += 1;
    }
    assert(all.skip(i as int) =~= Seq::empty());
    None
}

/// The texts without the white space around each.
pub open spec fn trimmed_each(texts: Seq<Seq<char>>) -> Seq<Seq<char>> {
    texts.map_values(|s: Seq<char>| trimmed(s))
}

/// Finds the Tailscale address in what `tailscale ip -4` prints: one address a line.
pub fn tailscale_ip_from_cli_output(output: &str) -> (result: Option<IpAddr>)
    ensures
        address_text(result) == first_tailscale(trimmed_each(lines_of(output@))),
        result matches Some(ip) ==> ip@.tailscale(),
{
    let all = lines(output);
    let mut texts: Vec<String> = Vec::new();
    let mut i: usize = 0;
    while i < all.len()
        invariant
            i <= all@.len(),
            views(all@) == lines_of(output@),
            views(texts@) =~= trimmed_each(lines_of(output@)).take(i as int),
        decreases all@.len() - i,
    {
        let ghost before = views(texts@);
        let line = trim(all[i].as_str());
        assert(views(all@)[i as int] == all@[i as int]@);
        assert(line@ == trimmed_each(lines_of(output@))[i as int]);
        texts.push(line);
        assert(views(texts@) =~= before.push(line@));
        i += 1;
    }
    assert(views(texts@) =~= trimmed_each(lines_of(output@)));
    first_tailscale_address(&texts)
}

/// Finds the Tailscale address among the words that `ifconfig` prints.
pub fn tailscale_ip_from_ifconfig_output(output: &str) -> (result: Option<IpAddr>)
    ensures
        address_text(result) == first_tailscale(words_of(output@)),
        result matches Some(ip) ==> ip@.tailscale(),
{
    let texts = words(output);
    first_tailscale_address(&texts)
}

/// Tells whether the address that a socket was given is one to be reached at
/// from the local network.
pub fn lan_candidate(ip: &IpAddr) -> (result: bool)
    ensures
        result == (!ip@.loopback() && !ip@.unspecified()),
{
    !ip.is_loopback() && !ip.is_unspecified()
}

/// A host that has to stand in brackets in front of a port.
pub open spec fn needs_brackets(host: Seq<char>) -> bool {
    &&& host.contains(':')
    &&& host[0] != '['
    &&& host.last() != ']'
}

/// The URL of a service on a host.
pub open spec fn host_url(host: Seq<char>, port: u16) -> Seq<char> {
    let name = trimmed(host);
    if needs_brackets(name) {
        "http://["@ + name + "]:"@ + decimal(port as nat)
    } else {
        "http://"@ + name + ":"@ + decimal(port as nat)
    }
}

pub fn http_url_for_host(host: &str, port: u16) -> (url: String)
    ensures
        url@ == host_url(host@, port),
{
    let name = trim(host);
    let chars = chars_of(name.as_str());
    let colon = char_index(&chars, 0, ':');
    proof {
        let p = |c: char| c == ':';
        lemma_index_where(chars@, 0, p);
        if colon < chars@.len() {
            assert(p(chars@[colon as int]));
            assert(chars@.contains(':'));
        } else if chars@.contains(':') {
            let i = choose|i: int| 0 <= i < chars@.len() && chars@[i] == ':';
            assert(!p(chars@[i]));
        }
    }
    let bracketed = colon < chars.len() && chars[0] != '[' && chars[chars.len() - 1] != ']';
    let mut url = if bracketed {
        owned("http://[")
    } else {
        owned("http://")
    };
    url.append(name.as_str());
    if bracketed {
        url.append("]:");
    } else {
        url.append(":");
    }
    url.append(decimal_text(port as u64).as_str());
    url
}

/// The URL of the user interface, which may select a device.
pub open spec fn ui_url(base: Seq<char>, selector: Option<Seq<char>>) -> Seq<char> {
    match selector {
        Some(device) => if blank(device) {
            base
        } else {
            base + "/?device="@ + percent_encoded(trimmed(device))
        },
        None => base,
    }
}

pub fn ui_url_from_base(base: String, selector: Option<&str>) -> (url: String)
    ensures
        url@ == ui_url(base@, option_str_view(selector)),
{
    let mut url = base;
    if let Some(device) = selector {
        if !is_blank(device) {
            url.append("/?device=");
            url.append(percent_encode(trim(device).as_str()).as_str());
        }
    }
    url
}

/// The addresses at which a port has to be free for a service that binds to an
/// address: where it binds to all addresses, that of the machine
/// itself too.
pub open spec fn probed(bind: IpAddrView) -> Seq<IpAddrView> {
    if bind.unspecified() {
        seq![IpAddrView::V4(127, 0, 0, 1), bind]
    } else {
        seq![bind]
    }
}

/// What each address of a list is.
pub open spec fn ip_views(list: Seq<IpAddr>) -> Seq<IpAddrView> {
    list.map_values(|ip: IpAddr| ip@)
}

/// The addresses at which a port has to be free for a service that binds to an
/// address.
pub fn port_available(bind: &IpAddr) -> (addresses: Vec<IpAddr>)
    ensures
        ip_views(addresses@) == probed(bind@),
{
    let mut addresses: Vec<IpAddr> = Vec::new();
    if bind.is_unspecified() {
        addresses.push(localhost());
    }
    addresses.push(bind.clone());
    assert(ip_views(addresses@) =~= probed(bind@));
    addresses
}

/// The URL of a service on the machine itself.
pub proof fn lemma_local_url(port: u16)
    ensures
        host_url("127.0.0.1"@, port) == "http://127.0.0.1:"@ + decimal(port as nat),
{
    reveal_strlit("127.0.0.1");
    reveal_strlit("http://");
    reveal_strlit(":");
    reveal_strlit("http://127.0.0.1:");
    let host = "127.0.0.1"@;
    lemma_already_trimmed(host);
    assert(!host.contains(':'));
    assert("http://"@ + host + ":"@ =~= "http://127.0.0.1:"@);
}

/// The URL of a service leads to the host and the port that it is made of: it starts
/// with the scheme, ends with the port, and holds the host in between, in brackets
/// where it is an address with colons.
pub proof fn urls_lead_to_their_host_and_port(host: Seq<char>, port: u16)
    ensures
        ({
            let url = host_url(host, port);
            let name = trimmed(host);
            let tail = ":"@ + decimal(port as nat);
            let middle = url.subrange(7, url.len() - tail.len());
            &&& url.len() >= 7 + tail.len() && url.take(7) == "http://"@
            &&& url.skip(url.len() - tail.len()) == tail
            &&& !name.contains(':') ==> middle == name
            &&& ipv6_form(name) ==> middle == seq!['['] + name + seq![']']
        }),
{
    reveal_strlit("http://");
    reveal_strlit("http://[");
    reveal_strlit(":");
    reveal_strlit("]:");
    let url = host_url(host, port);
    let name = trimmed(host);
    let tail = ":"@ + decimal(port as nat);
    let middle = url.subrange(7, url.len() - tail.len());
    assert(url.take(7) =~= "http://"@);
    assert(url.skip(url.len() - tail.len()) =~= tail);
    if ipv6_form(name) {
        assert(ipv6_char(name[0]));
        assert(ipv6_char(name.last()));
        assert(middle =~= seq!['['] + name + seq![']']);
    }
    if !name.contains(':') {
        assert(middle =~= name);
    }
}

/// The URL of the user interface is that of the service; one that selects a device
/// gives the device back when it is decoded.
pub proof fn ui_urls_select_their_device(base: Seq<char>, device: Seq<char>)
    ensures
        ui_url(base, None) == base,
        blank(device) ==> ui_url(base, Some(device)) == base,
        !blank(device) ==> {
            let url = ui_url(base, Some(device));
            let front = base + "/?device="@;
            &&& url.len() >= front.len() && url.take(front.len() as int) == front
            &&& percent_decoded_bytes(url.skip(front.len() as int)) == encode_utf8(trimmed(device))
        },
{
    let url = ui_url(base, Some(device));
    let front = base + "/?device="@;
    if !blank(device) {
        assert(url.take(front.len() as int) =~= front);
        assert(url.skip(front.len() as int) =~= percent_encoded(trimmed(device)));
        percent_encoding_decodes(encode_utf8(trimmed(device)));
    }
}

/// A text is taken for an address of Tailscale exactly where it spells one of the
/// range 100.64.0.0/10.
pub proof fn tailscale_addresses_are_in_their_range(a: u8, b: u8, c: u8, d: u8)
    ensures
        tailscale_host(ipv4_text(a, b, c, d)) <==> a == 100 && 64 <= b <= 127,
        IpAddrView::V4(a, b, c, d).tailscale() <==> tailscale_host(ipv4_text(a, b, c, d)),
{
    if tailscale_host(ipv4_text(a, b, c, d)) {
        let (x, y, z) = choose|x: u8, y: u8, z: u8|
            64 <= x <= 127 && ipv4_text(a, b, c, d) == #[trigger] ipv4_text(100, x, y, z);
        ipv4_text_is_injective((a, b, c, d), (100, x, y, z));
    }
}

/// The address of Tailscale that is found is the first of the texts that is one.
pub proof fn first_tailscale_address_is_found(texts: Seq<Seq<char>>, i: int)
    requires
        0 <= i < texts.len(),
        tailscale_host(texts[i]),
        forall|j: int| 0 <= j < i ==> !tailscale_host(#[trigger] texts[j]),
    ensures
        first_tailscale(texts) == Some(texts[i]),
    decreases texts.len(),
{
    if i > 0 {
        let rest = texts.drop_first();
        assert(!tailscale_host(texts[0]));
        assert forall|j: int| 0 <= j < i - 1 implies !tailscale_host(#[trigger] rest[j]) by {
            assert(rest[j] == texts[j + 1]);
        }
        first_tailscale_address_is_found(rest, i - 1);
    }
}

/// No address of Tailscale is found where none of the texts is one.
pub proof fn no_tailscale_address_is_made_up(texts: Seq<Seq<char>>)
    ensures
        first_tailscale(texts) matches Some(text) ==> texts.contains(text) && tailscale_host(text),
    decreases texts.len(),
{
    if texts.len() > 0 && !tailscale_host(texts[0]) {
        let rest = texts.drop_first();
        no_tailscale_address_is_made_up(rest);
        if first_tailscale(texts) is Some {
            let text = first_tailscale(texts)->Some_0;
            let k = choose|k: int| 0 <= k < rest.len() && rest[k] == text;
            assert(texts[k + 1] == text);
        }
    } else if texts.len() > 0 {
        assert(texts.contains(texts[0]));
    }
}

/// A port has to be free at the address that is bound to, and where that stands for
/// every interface, at that of the machine itself too; nowhere else.
pub proof fn ports_are_looked_at_where_they_are_bound(bind: IpAddrView, address: IpAddrView)
    ensures
        probed(bind).contains(address) <==> address == bind || (bind.unspecified() && address
            == IpAddrView::V4(127, 0, 0, 1)),
{
    if bind.unspecified() {
        assert(probed(bind)[0] == IpAddrView::V4(127, 0, 0, 1));
        assert(probed(bind)[1] == bind);
    } else {
        assert(probed(bind)[0] == bind);
    }
}

/// The addresses that stay inside the machine are those of 127.0.0.0/8 and `::1`;
/// those that stand for every interface are `0.0.0.0` and `::`.
pub proof fn special_addresses(a: u8, b: u8, c: u8, d: u8)
    ensures
        IpAddrView::V4(a, b, c, d).loopback() <==> a == 127,
        IpAddrView::V4(a, b, c, d).unspecified() <==> (a, b, c, d) == (0u8, 0u8, 0u8, 0u8),
        IpAddrView::V6("::1"@).loopback() && !IpAddrView::V6("::1"@).unspecified(),
        IpAddrView::V6("::"@).unspecified() && !IpAddrView::V6("::"@).loopback(),
        !(IpAddrView::V4(a, b, c, d).loopback() && IpAddrView::V4(a, b, c, d).unspecified()),
{
    reveal_strlit("::1");
    reveal_strlit("::");
    assert("::1"@.len() == 3 && "::"@.len() == 2);
}

/// The text of an address has its four numbers in order, with dots between them.
pub proof fn address_texts_have_their_numbers_in_order(a: u8, b: u8, c: u8, d: u8)
    ensures
        IpAddrView::V4(a, b, c, d).text() == joined(
            seq![decimal(a as nat), decimal(b as nat), decimal(c as nat), decimal(d as nat)],
            "."@,
        ),
{
    let parts = seq![decimal(a as nat), decimal(b as nat), decimal(c as nat), decimal(d as nat)];
    reveal_with_fuel(joined, 5);
    assert(parts.drop_last() =~= seq![decimal(a as nat), decimal(b as nat), decimal(c as nat)]);
    assert(parts.drop_last().drop_last() =~= seq![decimal(a as nat), decimal(b as nat)]);
    assert(parts.drop_last().drop_last().drop_last() =~= seq![decimal(a as nat)]);
}

/// A text that is no IPv4 address is the IPv6 address whose canonical form it has,
/// where it has one; a text that is neither is no address.
pub proof fn ipv6_addresses_are_read_in_their_form(s: Seq<char>, form: Seq<char>)
    requires
        forall|a: u8, b: u8, c: u8, d: u8| s != #[trigger] ipv4_text(a, b, c, d),
    ensures
        ipv6_form(form) ==> ip_of(s, Some(form)) == Some(IpAddrView::V6(form)),
        !ipv6_form(form) ==> ip_of(s, Some(form)) is None,
        ip_of(s, None) is None,
{
}

/// The form of an IPv6 address holds a colon, and hexadecimal digits, colons and dots
/// alone.
pub proof fn ipv6_forms_hold_digits_and_colons(text: Seq<char>, i: int)
    ensures
        ipv6_form(text) ==> text.contains(':'),
        ipv6_form(text) && 0 <= i < text.len() ==> '0' <= text[i] <= '9' || 'a' <= text[i] <= 'f'
            || 'A' <= text[i] <= 'F' || text[i] == ':' || text[i] == '.',
        ipv6_form("::1"@) && ipv6_form("::"@) && ipv6_form("fe80::1"@),
{
    reveal_strlit("::1");
    reveal_strlit("::");
    reveal_strlit("fe80::1");
    assert("::1"@[0] == ':' && "::"@[0] == ':' && "fe80::1"@[4] == ':');
}

/// The contracts see an address as what it is.
pub proof fn addresses_are_seen_as_they_are(a: u8, b: u8, c: u8, d: u8, text: String)
    ensures
        IpAddr::V4(a, b, c, d)@ == IpAddrView::V4(a, b, c, d),
        IpAddr::V6(text)@ == IpAddrView::V6(text@),
{
}

} // verus!
