//! Percent-encoding for link parameters and escaping for XML text.
use vstd::prelude::*;
use vstd::utf8::{encode_utf8, encode_utf8_decode_utf8};

use crate::numbers::{upper_hex_char, upper_hex_to_char};
use crate::text::chars_of;

verus! {

/// The bytes that percent-encoding leaves as they are: ASCII letters and
/// digits, `-`, `.`, `_` and `~`.
pub open spec fn unreserved(byte: u8) -> bool {
    ||| 65 <= byte <= 90
    ||| 97 <= byte <= 122
    ||| 48 <= byte <= 57
    ||| byte == 45
    ||| byte == 46
    ||| byte == 95
    ||| byte == 126
}

/// A byte in percent-encoding.
pub open spec fn percent_encoded_byte(byte: u8) -> Seq<char> {
    if unreserved(byte) {
        seq![byte as char]
    } else {
        seq!['%', upper_hex_char(byte as int / 16), upper_hex_char(byte as int % 16)]
    }
}

/// Bytes in percent-encoding.
pub open spec fn percent_encoded_bytes(bytes: Seq<u8>) -> Seq<char>
    decreases bytes.len(),
{
    if bytes.len() == 0 {
        Seq::empty()
    } else {
        percent_encoded_bytes(bytes.drop_last()) + percent_encoded_byte(bytes.last())
    }
}

/// A text in percent-encoding: that of its UTF-8 bytes.
pub open spec fn percent_encoded(s: Seq<char>) -> Seq<char> {
    percent_encoded_bytes(encode_utf8(s))
}

/// Encodes a text for use as a parameter of a link.
pub fn percent_encode(value: &str) -> (encoded: String)
    ensures
        encoded@ == percent_encoded(value@),
{
    let bytes = value.as_bytes();
    let mut encoded = String::new();
    let mut i: usize = 0;
    assert(bytes@.take(0) =~= Seq::empty());
    while i < bytes.len()
        invariant
            i <= bytes@.len(),
            encoded@ == percent_encoded_bytes(bytes@.take(i as int)),
        decreases bytes@.len() - i,
    {
        let byte = bytes[i];
        let ghost before = encoded@;
        let keep = (65 <= byte && byte <= 90) || (97 <= byte && byte <= 122) || (48 <= byte && byte
            <= 57) || byte == 45 || byte == 46 || byte == 95 || byte == 126;
        if keep {
            encoded.push(byte as char);
        } else {
            encoded.push('%');
            encoded.push(upper_hex_to_char(byte / 16));
            encoded.push(upper_hex_to_char(byte % 16));
        }
        assert(encoded@ =~= before + percent_encoded_byte(byte));
        i += 1;
        assert(bytes@.take(i as int).drop_last() =~= bytes@.take(i - 1));
    }
    assert(bytes@.take(i as int) =~= bytes@);
    encoded
}

/// The digit of an upper-case hexadecimal character.
pub open spec fn upper_hex_digit(c: char) -> int {
    if '0' <= c <= '9' {
        c as int - '0' as int
    } else {
        c as int - 'A' as int + 10
    }
}

/// The bytes that a percent-encoded text stands for.
pub open spec fn percent_decoded_bytes(s: Seq<char>) -> Seq<u8>
    decreases s.len(),
{
    if s.len() == 0 {
        Seq::empty()
    } else if s[0] == '%' && s.len() >= 3 {
        seq![(upper_hex_digit(s[1]) * 16 + upper_hex_digit(s[2])) as u8] + percent_decoded_bytes(
            s.skip(3),
        )
    } else {
        seq![s[0] as u8] + percent_decoded_bytes(s.skip(1))
    }
}

proof fn lemma_percent_encoded_front(bytes: Seq<u8>)
    requires
        bytes.len() > 0,
    ensures
        percent_encoded_bytes(bytes) == percent_encoded_byte(bytes[0]) + percent_encoded_bytes(
            bytes.drop_first(),
        ),
    decreases bytes.len(),
{
    if bytes.len() == 1 {
        reveal_with_fuel(percent_encoded_bytes, 2);
        assert(bytes.drop_last() =~= Seq::empty());
        assert(bytes.drop_first() =~= Seq::empty());
        assert(percent_encoded_bytes(bytes) =~= percent_encoded_byte(bytes[0]));
    } else {
        lemma_percent_encoded_front(bytes.drop_last());
        assert(bytes.drop_last().drop_first() =~= bytes.drop_first().drop_last());
        assert(percent_encoded_bytes(bytes) =~= percent_encoded_byte(bytes[0])
            + percent_encoded_bytes(bytes.drop_first()));
    }
}

/// Percent-encoding loses nothing: decoding gives the bytes back.
pub proof fn percent_encoding_decodes(bytes: Seq<u8>)
    ensures
        percent_decoded_bytes(percent_encoded_bytes(bytes)) == bytes,
    decreases bytes.len(),
{
    if bytes.len() > 0 {
        let byte = bytes[0];
        let rest = bytes.drop_first();
        let encoded = percent_encoded_bytes(bytes);
        lemma_percent_encoded_front(bytes);
        percent_encoding_decodes(rest);
        if unreserved(byte) {
            assert(encoded[0] == byte as char);
            assert(encoded.skip(1) =~= percent_encoded_bytes(rest));
            assert(encoded[0] as u8 == byte);
        } else {
            assert(encoded[0] == '%' && encoded[1] == upper_hex_char(byte as int / 16)
                && encoded[2] == upper_hex_char(byte as int % 16));
            assert(encoded.skip(3) =~= percent_encoded_bytes(rest));
            assert(upper_hex_digit(encoded[1]) == byte as int / 16);
            assert(upper_hex_digit(encoded[2]) == byte as int % 16);
        }
        assert(percent_decoded_bytes(encoded) =~= bytes);
    }
}

/// Two texts with the same percent-encoding are the same text.
pub proof fn percent_encoding_is_injective(a: Seq<char>, b: Seq<char>)
    requires
        percent_encoded(a) == percent_encoded(b),
    ensures
        a == b,
{
    percent_encoding_decodes(encode_utf8(a));
    percent_encoding_decodes(encode_utf8(b));
    encode_utf8_decode_utf8(a);
    encode_utf8_decode_utf8(b);
}

/// A character of percent-encoded text: none that delimits the parts of a link.
pub open spec fn link_safe(c: char) -> bool {
    ||| 'A' <= c <= 'Z'
    ||| 'a' <= c <= 'z'
    ||| '0' <= c <= '9'
    ||| c == '-'
    ||| c == '.'
    ||| c == '_'
    ||| c == '~'
    ||| c == '%'
}

/// Percent-encoded bytes are made of unreserved characters and `%` alone.
pub proof fn percent_encoded_bytes_are_link_safe(bytes: Seq<u8>)
    ensures
        forall|i: int|
            0 <= i < percent_encoded_bytes(bytes).len() ==> link_safe(
                #[trigger] percent_encoded_bytes(bytes)[i],
            ),
    decreases bytes.len(),
{
    if bytes.len() > 0 {
        let front = percent_encoded_bytes(bytes.drop_last());
        let last = percent_encoded_byte(bytes.last());
        percent_encoded_bytes_are_link_safe(bytes.drop_last());
        assert forall|i: int| 0 <= i < percent_encoded_bytes(bytes).len() implies link_safe(
            #[trigger] percent_encoded_bytes(bytes)[i],
        ) by {
            assert(percent_encoded_bytes(bytes)[i] == (front + last)[i]);
            if i < front.len() {
                assert(link_safe(front[i]));
            } else {
                assert(link_safe(last[i - front.len()]));
            }
        }
    }
}

/// The escaped form of a character in XML text.
pub open spec fn xml_escaped_char(c: char) -> Seq<char> {
    if c == '&' {
        seq!['&', 'a', 'm', 'p', ';']
    } else if c == '<' {
        seq!['&', 'l', 't', ';']
    } else if c == '>' {
        seq!['&', 'g', 't', ';']
    } else if c == '"' {
        seq!['&', 'q', 'u', 'o', 't', ';']
    } else if c == '\'' {
        seq!['&', 'a', 'p', 'o', 's', ';']
    } else {
        seq![c]
    }
}

/// The escaped form of an XML text.
pub open spec fn xml_escaped(s: Seq<char>) -> Seq<char>
    decreases s.len(),
{
    if s.len() == 0 {
        Seq::empty()
    } else {
        xml_escaped(s.drop_last()) + xml_escaped_char(s.last())
    }
}

/// Escapes a text for use inside an XML element.
pub fn xml_escape(value: &str) -> (escaped: String)
    ensures
        escaped@ == xml_escaped(value@),
{
    proof {
        reveal_strlit("&amp;");
        reveal_strlit("&lt;");
        reveal_strlit("&gt;");
        reveal_strlit("&quot;");
        reveal_strlit("&apos;");
    }
    let chars = chars_of(value);
    let mut escaped = String::new();
    let mut i: usize = 0;
    assert(chars@.take(0) =~= Seq::empty());
    while i < chars.len()
        invariant
            i <= chars@.len(),
            escaped@ == xml_escaped(chars@.take(i as int)),
            "&amp;"@ =~= seq!['&', 'a', 'm', 'p', ';'],
            "&lt;"@ =~= seq!['&', 'l', 't', ';'],
            "&gt;"@ =~= seq!['&', 'g', 't', ';'],
            "&quot;"@ =~= seq!['&', 'q', 'u', 'o', 't', ';'],
            "&apos;"@ =~= seq!['&', 'a', 'p', 'o', 's', ';'],
        decreases chars@.len() - i,
    {
        let c = chars[i];
        let ghost before = escaped@;
        if c == '&' {
            escaped.append("&amp;");
        } else if c == '<' {
            escaped.append("&lt;");
        } else if c == '>' {
            escaped.append("&gt;");
        } else if c == '"' {
            escaped.append("&quot;");
        } else if c == '\'' {
            escaped.append("&apos;");
        } else {
            escaped.push(c);
        }
        assert(escaped@ =~= before + xml_escaped_char(c));
        i += 1;
        assert(chars@.take(i as int).drop_last() =~= chars@.take(i - 1));
    }
    assert(chars@.take(i as int) =~= chars@);
    escaped
}

/// The text that an escaped text stands for.
pub open spec fn xml_unescaped(s: Seq<char>) -> Seq<char>
    decreases s.len(),
{
    if s.len() == 0 {
        Seq::empty()
    } else if s[0] != '&' || s.len() < 4 {
        seq![s[0]] + xml_unescaped(s.skip(1))
    } else if s[1] == 'l' {
        seq!['<'] + xml_unescaped(s.skip(4))
    } else if s[1] == 'g' {
        seq!['>'] + xml_unescaped(s.skip(4))
    } else if s[1] == 'q' && s.len() >= 6 {
        seq!['"'] + xml_unescaped(s.skip(6))
    } else if s[2] == 'm' && s.len() >= 5 {
        seq!['&'] + xml_unescaped(s.skip(5))
    } else if s.len() >= 6 {
        seq!['\''] + xml_unescaped(s.skip(6))
    } else {
        seq![s[0]] + xml_unescaped(s.skip(1))
    }
}

proof fn lemma_xml_escaped_front(s: Seq<char>)
    requires
        s.len() > 0,
    ensures
        xml_escaped(s) == xml_escaped_char(s[0]) + xml_escaped(s.drop_first()),
    decreases s.len(),
{
    if s.len() == 1 {
        reveal_with_fuel(xml_escaped, 2);
        assert(s.drop_last() =~= Seq::empty());
        assert(s.drop_first() =~= Seq::empty());
        assert(xml_escaped(s) =~= xml_escaped_char(s[0]));
    } else {
        lemma_xml_escaped_front(s.drop_last());
        assert(s.drop_last().drop_first() =~= s.drop_first().drop_last());
        assert(xml_escaped(s) =~= xml_escaped_char(s[0]) + xml_escaped(s.drop_first()));
    }
}

/// Escaping loses nothing: replacing the entities gives the text back.
pub proof fn xml_escaping_unescapes(s: Seq<char>)
    ensures
        xml_unescaped(xml_escaped(s)) == s,
    decreases s.len(),
{
    if s.len() > 0 {
        let rest = s.drop_first();
        let escaped = xml_escaped(s);
        let first = xml_escaped_char(s[0]);
        lemma_xml_escaped_front(s);
        xml_escaping_unescapes(rest);
        assert(forall|i: int| 0 <= i < first.len() ==> escaped[i] == #[trigger] first[i]);
        assert(escaped.skip(first.len() as int) =~= xml_escaped(rest));
        assert(first.len() >= 1);
        assert(escaped[0] == first[0]);
        if first.len() > 1 {
            assert(escaped[1] == first[1]);
            assert(escaped[2] == first[2]);
        }
        assert(xml_unescaped(escaped) =~= s);
    }
}

/// Escaped text holds no character that would open or close markup or a quote.
pub proof fn xml_escaped_has_no_markup(s: Seq<char>)
    ensures
        forall|i: int|
            0 <= i < xml_escaped(s).len() ==> {
                let c = #[trigger] xml_escaped(s)[i];
                c != '<' && c != '>' && c != '"' && c != '\''
            },
    decreases s.len(),
{
    if s.len() > 0 {
        let front = xml_escaped(s.drop_last());
        let last = xml_escaped_char(s.last());
        xml_escaped_has_no_markup(s.drop_last());
        assert forall|i: int| 0 <= i < xml_escaped(s).len() implies {
            let c = #[trigger] xml_escaped(s)[i];
            c != '<' && c != '>' && c != '"' && c != '\''
        } by {
            assert(xml_escaped(s)[i] == (front + last)[i]);
            if i < front.len() {
                assert(xml_escaped(s)[i] == front[i]);
            } else {
                assert(xml_escaped(s)[i] == last[i - front.len()]);
            }
        }
    }
}

/// Letters, digits and the signs `-`, `.`, `_` and `~` stay as they are in a link; any
/// other byte becomes a percent sign and two digits.
pub proof fn plain_bytes_stay_in_links(bytes: Seq<u8>)
    ensures
        (forall|i: int|
            0 <= i < bytes.len() ==> {
                let byte = #[trigger] bytes[i];
                'A' as int <= byte <= 'Z' as int || 'a' as int <= byte <= 'z' as int || '0' as int
                    <= byte <= '9' as int || byte == '-' as int || byte == '.' as int || byte
                    == '_' as int || byte == '~' as int
            }) ==> percent_encoded_bytes(bytes) == bytes.map_values(|byte: u8| byte as char),
        bytes.len() == 1 && bytes[0] < 45 ==> percent_encoded_bytes(bytes).len() == 3
            && percent_encoded_bytes(bytes)[0] == '%',
    decreases bytes.len(),
{
    if bytes.len() > 0 {
        let front = bytes.drop_last();
        plain_bytes_stay_in_links(front);
        let last = bytes[bytes.len() - 1];
        assert(bytes.last() == last);
        if forall|i: int|
            0 <= i < bytes.len() ==> {
                let byte = #[trigger] bytes[i];
                'A' as int <= byte <= 'Z' as int || 'a' as int <= byte <= 'z' as int || '0' as int
                    <= byte <= '9' as int || byte == '-' as int || byte == '.' as int || byte
                    == '_' as int || byte == '~' as int
            } {
            assert forall|i: int| 0 <= i < front.len() implies {
                let byte = #[trigger] front[i];
                'A' as int <= byte <= 'Z' as int || 'a' as int <= byte <= 'z' as int || '0' as int
                    <= byte <= '9' as int || byte == '-' as int || byte == '.' as int || byte
                    == '_' as int || byte == '~' as int
            } by {
                assert(front[i] == bytes[i]);
            }
            assert(unreserved(last));
            assert(percent_encoded_bytes(bytes) =~= bytes.map_values(|byte: u8| byte as char));
        }
        if bytes.len() == 1 && bytes[0] < 45 {
            assert(percent_encoded_bytes(front) =~= Seq::<char>::empty());
        }
    } else {
        assert(percent_encoded_bytes(bytes) =~= bytes.map_values(|byte: u8| byte as char));
    }
}

/// A text without characters that XML gives a meaning to stays as it is.
pub proof fn plain_texts_stay_in_xml(s: Seq<char>)
    requires
        forall|i: int|
            0 <= i < s.len() ==> {
                let c = #[trigger] s[i];
                c != '&' && c != '<' && c != '>' && c != '"' && c != '\''
            },
    ensures
        xml_escaped(s) == s,
    decreases s.len(),
{
    if s.len() > 0 {
        let front = s.drop_last();
        assert forall|i: int| 0 <= i < front.len() implies {
            let c = #[trigger] front[i];
            c != '&' && c != '<' && c != '>' && c != '"' && c != '\''
        } by {
            assert(front[i] == s[i]);
        }
        plain_texts_stay_in_xml(front);
        assert(s.last() == s[s.len() - 1]);
        assert(xml_escaped(s) =~= s);
    }
}

} // verus!
