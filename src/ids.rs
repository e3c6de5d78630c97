use vstd::prelude::*;
use vstd::string::*;

use crate::error::BrokerError;
use crate::text::{joined, push_char};

verus! {

/// Number of characters in an identifier.
pub const ID_LEN: usize = 36;

/// Length of the prefix (time, version and variant groups) that a binding
/// identifier shares with its instance identifier.
pub const SHARED_PREFIX_LEN: usize = 23;

/// A lowercase hexadecimal digit.
pub open spec fn is_hex_char(c: char) -> bool {
    ('0' <= c && c <= '9') || ('a' <= c && c <= 'f')
}

/// The positions of the four group separators in an 8-4-4-4-12 identifier.
pub open spec fn is_dash_pos(p: int) -> bool {
    p == 8 || p == 13 || p == 18 || p == 23
}

/// Canonical 8-4-4-4-12 lowercase hexadecimal shape.
pub open spec fn is_uuid_shape(s: Seq<char>) -> bool {
    &&& s.len() == 36
    &&& forall|p: int| 0 <= p < 36 ==> if is_dash_pos(p) { s[p] == '-' } else { is_hex_char(#[trigger] s[p]) }
}

/// The final (node) group consists of zeros only.
pub open spec fn has_zero_node(s: Seq<char>) -> bool {
    forall|p: int| 24 <= p < 36 ==> #[trigger] s[p] == '0'
}

/// The shape of a service instance identifier: a uuid whose node group is zero.
pub open spec fn is_instance_shape(s: Seq<char>) -> bool {
    is_uuid_shape(s) && has_zero_node(s)
}

/// The shape of a service binding identifier: a uuid whose node group is not zero.
pub open spec fn is_binding_shape(s: Seq<char>) -> bool {
    is_uuid_shape(s) && !has_zero_node(s)
}

/// A separator followed by a zero node group.
pub open spec fn zero_node_suffix() -> Seq<char> {
    Seq::new(13, |i: int| if i == 0 { '-' } else { '0' })
}

/// The instance identifier that an identifier's first 23 characters determine.
pub open spec fn instance_of(s: Seq<char>) -> Seq<char> {
    s.subrange(0, 23) + zero_node_suffix()
}

/// The binding identifier made of an instance's shared prefix and the node
/// group (with its separator) of a fresh uuid.
pub open spec fn binding_of(instance: Seq<char>, fresh: Seq<char>) -> Seq<char> {
    instance.subrange(0, 23) + fresh.subrange(23, 36)
}

/// The lowercase hexadecimal digit of a value below 16.
pub open spec fn hex_char(n: u8) -> char {
    if n < 10 {
        (n + 48) as char
    } else {
        (n + 87) as char
    }
}

/// The random bytes with the version (4) and variant (RFC 4122) bits fixed.
pub open spec fn uuid_byte(random: Seq<u8>, k: int) -> u8 {
    if k == 6 {
        (random[6] & 0x4f) | 0x40
    } else if k == 8 {
        (random[8] & 0xbf) | 0x80
    } else {
        random[k]
    }
}

/// The number of hexadecimal digits before position `p` of the text, which
/// is also the index of the digit shown there.
pub open spec fn digit_index(p: int) -> int {
    if p <= 8 {
        p
    } else if p <= 13 {
        p - 1
    } else if p <= 18 {
        p - 2
    } else if p <= 23 {
        p - 3
    } else {
        p - 4
    }
}

/// The character at position `p` of the canonical rendering of 16 bytes.
pub open spec fn uuid_char(random: Seq<u8>, p: int) -> char {
    if is_dash_pos(p) {
        '-'
    } else {
        let q = digit_index(p);
        let b = uuid_byte(random, q / 2);
        if q % 2 == 0 {
            hex_char(b / 16)
        } else {
            hex_char(b % 16)
        }
    }
}

/// The canonical 8-4-4-4-12 rendering of 16 random bytes as a version 4 uuid.
pub open spec fn uuid_text(random: Seq<u8>) -> Seq<char> {
    Seq::new(36, |p: int| uuid_char(random, p))
}

/// The node group of a uuid rendered from these bytes is zero exactly when
/// its last six bytes are zero.
pub open spec fn zero_node_bytes(random: Seq<u8>) -> bool {
    forall|k: int| 10 <= k < 16 ==> #[trigger] random[k] == 0
}

/// The random bytes of a binding's node group: as drawn, except that an
/// all-zero draw has its last byte set to 1, so that the node group of a
/// binding identifier is never zero.
pub open spec fn node_bytes(random: Seq<u8>) -> Seq<u8> {
    if zero_node_bytes(random) {
        random.update(15, 1)
    } else {
        random
    }
}

/// The binding identifier generated for `instance` from `random`.
pub open spec fn generated_binding(instance: Seq<char>, random: Seq<u8>) -> Seq<char> {
    binding_of(instance, uuid_text(node_bytes(random)))
}

proof fn lemma_hex_char(n: u8)
    requires
        n < 16,
    ensures
        is_hex_char(hex_char(n)),
        (hex_char(n) == '0') == (n == 0),
{
}

/// The rendering of any 16 bytes has the canonical uuid shape.
pub proof fn lemma_uuid_text_shape(random: Seq<u8>)
    requires
        random.len() == 16,
    ensures
        is_uuid_shape(uuid_text(random)),
{
    let s = uuid_text(random);
    assert forall|p: int| 0 <= p < 36 implies if is_dash_pos(p) { s[p] == '-' } else { is_hex_char(#[trigger] s[p]) } by {
        if !is_dash_pos(p) {
            let q = digit_index(p);
            let b = uuid_byte(random, q / 2);
            lemma_hex_char(b / 16);
            lemma_hex_char(b % 16);
        }
    }
}

/// The node group of a rendering is zero exactly when the last six bytes are zero.
pub proof fn lemma_uuid_text_node(random: Seq<u8>)
    requires
        random.len() == 16,
    ensures
        has_zero_node(uuid_text(random)) == zero_node_bytes(random),
{
    let s = uuid_text(random);
    if zero_node_bytes(random) {
        assert forall|p: int| 24 <= p < 36 implies #[trigger] s[p] == '0' by {
            let q = digit_index(p);
            lemma_hex_char(0);
            assert(random[q / 2] == 0);
        }
    }
    if has_zero_node(s) {
        assert forall|k: int| 10 <= k < 16 implies #[trigger] random[k] == 0 by {
            let p = 2 * k + 4;
            assert(s[p] == '0' && s[p + 1] == '0');
            assert(digit_index(p) == 2 * k);
            assert(digit_index(p + 1) == 2 * k + 1);
            lemma_hex_char(random[k] / 16);
            lemma_hex_char(random[k] % 16);
        }
    }
}

/// Generated instance identifiers have the instance shape, whatever the random input.
pub proof fn lemma_generated_instance_id_is_valid(random: Seq<u8>)
    requires
        random.len() == 16,
    ensures
        is_instance_shape(instance_of(uuid_text(random))),
        instance_of(uuid_text(random)).subrange(0, 23) == uuid_text(random).subrange(0, 23),
{
    lemma_uuid_text_shape(random);
    let s = instance_of(uuid_text(random));
    assert(s.len() == 36);
    assert forall|p: int| 0 <= p < 36 implies if is_dash_pos(p) { s[p] == '-' } else { is_hex_char(#[trigger] s[p]) } by {
        if p >= 23 {
            assert(s[p] == zero_node_suffix()[p - 23]);
        }
    }
    assert(instance_of(uuid_text(random)).subrange(0, 23) =~= uuid_text(random).subrange(0, 23));
}

/// A binding identifier generated for an instance identifier leads back to
/// that instance, and is not itself an instance identifier.
pub proof fn lemma_binding_id_round_trip(instance: Seq<char>, random: Seq<u8>)
    requires
        is_instance_shape(instance),
        random.len() == 16,
    ensures
        is_binding_shape(generated_binding(instance, random)),
        !is_instance_shape(generated_binding(instance, random)),
        instance_of(generated_binding(instance, random)) == instance,
        generated_binding(instance, random).subrange(0, 23) == instance.subrange(0, 23),
{
    let drawn = random;
    let random = node_bytes(drawn);
    assert(!zero_node_bytes(random)) by {
        if zero_node_bytes(drawn) {
            assert(random[15] == 1);
        }
    }
    lemma_uuid_text_shape(random);
    lemma_uuid_text_node(random);
    let u = uuid_text(random);
    let b = binding_of(instance, u);
    assert(b.len() == 36);
    assert forall|p: int| 0 <= p < 36 implies if is_dash_pos(p) { b[p] == '-' } else { is_hex_char(#[trigger] b[p]) } by {
        if p < 23 {
            assert(b[p] == instance[p]);
        } else {
            assert(b[p] == u[p]);
        }
    }
    assert(!has_zero_node(b)) by {
        let p = choose|p: int| 24 <= p < 36 && u[p] != '0';
        assert(b[p] == u[p]);
    }
    assert forall|p: int| 0 <= p < 36 implies #[trigger] instance_of(b)[p] == instance[p] by {
        if p >= 23 {
            assert(instance_of(b)[p] == zero_node_suffix()[p - 23]);
        }
    }
    assert(instance_of(b) =~= instance);
    assert(b.subrange(0, 23) =~= instance.subrange(0, 23));
}

pub(crate) fn hex_digit(n: u8) -> (c: char)
    requires
        n < 16,
    ensures
        c == hex_char(n),
{
    if n < 10 {
        (n + 48) as char
    } else {
        (n + 87) as char
    }
}

fn is_hex(c: char) -> (r: bool)
    ensures
        r == is_hex_char(c),
{
    ('0' <= c && c <= '9') || ('a' <= c && c <= 'f')
}

/// The identifier authority: generates and checks instance and binding identifiers.
pub struct UuidIds {}

impl UuidIds {
    /// Renders 16 random bytes as a version 4 uuid in 8-4-4-4-12 lowercase form.
    pub fn generate(random: &[u8; 16]) -> (r: String)
        ensures
            r@ == uuid_text(random@),
            is_uuid_shape(r@),
    {
        let mut bytes: [u8; 16] = *random;
        bytes[6] = (random[6] & 0x4f) | 0x40;
        bytes[8] = (random[8] & 0xbf) | 0x80;
        let mut out = String::new();
        let mut p: usize = 0;
        let mut q: usize = 0;
        while p < ID_LEN
            invariant
                p <= 36,
                q == digit_index(p as int),
                bytes@.len() == 16,
                forall|k: int| 0 <= k < 16 ==> #[trigger] bytes@[k] == uuid_byte(random@, k),
                out@.len() == p,
                forall|k: int| 0 <= k < p ==> #[trigger] out@[k] == uuid_char(random@, k),
            decreases 36 - p,
        {
            if p == 8 || p == 13 || p == 18 || p == 23 {
                push_char(&mut out, '-');
            } else {
                let b = bytes[q / 2];
                if q % 2 == 0 {
                    push_char(&mut out, hex_digit(b / 16));
                } else {
                    push_char(&mut out, hex_digit(b % 16));
                }
                q = q + 1;
            }
            p = p + 1;
        }
        assert(out@ =~= uuid_text(random@));
        proof {
            lemma_uuid_text_shape(random@);
        }
        out
    }

    /// Whether `id` has the canonical uuid shape, and whether its node group is zero.
    fn inspect(id: &str) -> (r: (bool, bool))
        ensures
            r.0 == is_uuid_shape(id@),
            r.0 ==> r.1 == has_zero_node(id@),
    {
        let n = id.unicode_len();
        if n != ID_LEN {
            return (false, false);
        }
        let mut zero = true;
        let mut p: usize = 0;
        while p < ID_LEN
            invariant
                n == 36,
                id@.len() == 36,
                p <= 36,
                forall|k: int| 0 <= k < p ==> if is_dash_pos(k) { id@[k] == '-' } else { is_hex_char(#[trigger] id@[k]) },
                zero == (forall|k: int| 24 <= k < p ==> #[trigger] id@[k] == '0'),
            decreases 36 - p,
        {
            let c = id.get_char(p);
            if p == 8 || p == 13 || p == 18 || p == 23 {
                if c != '-' {
                    return (false, false);
                }
            } else if !is_hex(c) {
                return (false, false);
            }
            if p >= 24 && c != '0' {
                zero = false;
            }
            p = p + 1;
        }
        (true, zero)
    }

    /// Succeeds exactly when `instance_id` has the instance shape.
    pub fn validate_instance_id(instance_id: &str) -> (r: Result<(), BrokerError>)
        ensures
            r is Ok <==> is_instance_shape(instance_id@),
            r is Err ==> r->Err_0 is InvalidFormat,
    {
        let (uuid, zero) = Self::inspect(instance_id);
        if uuid && zero {
            Ok(())
        } else {
            Err(BrokerError::InvalidFormat(String::from_str(instance_id)))
        }
    }

    /// Succeeds exactly when `binding_id` has the binding shape. A uuid with a
    /// zero node group is refused as ambiguous, anything else as malformed.
    pub fn validate_binding_id(binding_id: &str) -> (r: Result<(), BrokerError>)
        ensures
            r is Ok <==> is_binding_shape(binding_id@),
            r is Err ==> (r->Err_0 is InvalidFormat <==> !is_uuid_shape(binding_id@)),
            r is Err ==> (r->Err_0 is AmbiguousId <==> is_instance_shape(binding_id@)),
    {
        let (uuid, zero) = Self::inspect(binding_id);
        if !uuid {
            Err(BrokerError::InvalidFormat(String::from_str(binding_id)))
        } else if zero {
            Err(BrokerError::AmbiguousId(String::from_str(binding_id)))
        } else {
            Ok(())
        }
    }

    /// The instance identifier with the same first 23 characters as `id`.
    fn instance_prefix_id(id: &str) -> (r: String)
        requires
            is_uuid_shape(id@),
        ensures
            r@ == instance_of(id@),
    {
        let mut r = String::from_str(id.substring_char(0, SHARED_PREFIX_LEN));
        push_char(&mut r, '-');
        let mut k: usize = 0;
        while k < 12
            invariant
                k <= 12,
                r@ == id@.subrange(0, 23) + zero_node_suffix().subrange(0, k + 1),
            decreases 12 - k,
        {
            push_char(&mut r, '0');
            k = k + 1;
            assert(r@ =~= id@.subrange(0, 23) + zero_node_suffix().subrange(0, k + 1));
        }
        assert(zero_node_suffix().subrange(0, 13) =~= zero_node_suffix());
        r
    }

    /// A new instance identifier: a uuid rendered from `random` whose node
    /// group is replaced by zeros. Never fails.
    pub fn generate_instance_id(random: &[u8; 16]) -> (r: String)
        ensures
            r@ == instance_of(uuid_text(random@)),
            is_instance_shape(r@),
    {
        let uuid = Self::generate(random);
        proof {
            lemma_generated_instance_id_is_valid(random@);
        }
        Self::instance_prefix_id(uuid.as_str())
    }

    /// A new binding identifier for `instance_id`: its first 23 characters,
    /// then the node group of a uuid rendered from `random`. Where the node
    /// bytes drawn are all zero, the last of them is taken as 1, so the node
    /// group never reads as an instance's.
    pub fn generate_binding_id(instance_id: &str, random: &[u8; 16]) -> (r: Result<String, BrokerError>)
        ensures
            r is Ok <==> is_instance_shape(instance_id@),
            r is Ok ==> r->Ok_0@ == generated_binding(instance_id@, random@),
            r is Ok ==> is_binding_shape(r->Ok_0@) && instance_of(r->Ok_0@) == instance_id@,
            r is Err ==> r->Err_0 is InvalidFormat,
    {
        Self::validate_instance_id(instance_id)?;
        let mut bytes: [u8; 16] = *random;
        let mut k: usize = 10;
        let mut zero = true;
        while k < 16
            invariant
                10 <= k <= 16,
                bytes@ == random@,
                zero == (forall|j: int| 10 <= j < k ==> #[trigger] random@[j] == 0),
            decreases 16 - k,
        {
            if bytes[k] != 0 {
                zero = false;
            }
            k = k + 1;
        }
        if zero {
            bytes[15] = 1;
        }
        assert(bytes@ =~= node_bytes(random@));
        proof {
            lemma_binding_id_round_trip(instance_id@, random@);
        }
        let uuid = Self::generate(&bytes);
        let node = uuid.as_str().substring_char(SHARED_PREFIX_LEN, ID_LEN);
        let r = joined(instance_id.substring_char(0, SHARED_PREFIX_LEN), node);
        Ok(r)
    }

    /// The instance identifier that `binding_id` encodes: its first 23
    /// characters followed by a zero node group.
    pub fn lookup_instance_id(binding_id: &str) -> (r: Result<String, BrokerError>)
        ensures
            r is Ok <==> is_binding_shape(binding_id@),
            r is Ok ==> r->Ok_0@ == instance_of(binding_id@),
            r is Err ==> (r->Err_0 is InvalidFormat <==> !is_uuid_shape(binding_id@)),
            r is Err ==> (r->Err_0 is AmbiguousId <==> is_instance_shape(binding_id@)),
    {
        Self::validate_binding_id(binding_id)?;
        Ok(Self::instance_prefix_id(binding_id))
    }
}

} // verus!
