//! Names for declarations, derived from the metadata of a call site.
use vstd::prelude::*;

verus! {

/// The text placed before the hex digits of every generated name.
pub open spec fn name_prefix() -> Seq<char> {
    seq!['_', 'E', 'X', 'C', 'L', 'U', 'S', 'I', 'V', 'E', '_']
}

/// The digit for a value below sixteen, from the alphabet `0123456789ABCDEF`.
pub open spec fn hex_digit(n: u8) -> char {
    if n < 10 {
        ('0' as int + n) as char
    } else {
        ('A' as int + (n - 10)) as char
    }
}

/// The two digits of one byte, the high half first.
pub open spec fn hex_pair(b: u8) -> Seq<char> {
    seq![hex_digit(b / 16), hex_digit(b % 16)]
}

/// Two digits for each byte, in the order of the bytes.
pub open spec fn hex_of(bytes: Seq<u8>) -> Seq<char>
    decreases bytes.len(),
{
    if bytes.len() == 0 {
        Seq::empty()
    } else {
        hex_of(bytes.drop_last()) + hex_pair(bytes.last())
    }
}

/// The name given to the call site whose metadata reads `site`.
pub open spec fn site_name(site: Seq<u8>) -> Seq<char> {
    name_prefix() + hex_of(site)
}

/// How the name of a declaration is chosen.
#[derive(Clone, Copy, Debug, PartialEq, Eq, Structural)]
pub enum Naming {
    /// A name spelt from the call site's metadata.
    Hashed,
    /// The placeholder `_`, for hosts where a `const _` binds nothing and
    /// never collides.
    Placeholder,
}

/// The name that `naming` gives to the call site whose metadata reads `site`.
pub open spec fn const_name(naming: Naming, site: Seq<u8>) -> Seq<char> {
    match naming {
        Naming::Hashed => site_name(site),
        Naming::Placeholder => seq!['_'],
    }
}

fn hex_digit_of(n: u8) -> (c: char)
    requires
        n < 16,
    ensures
        c == hex_digit(n),
{
    if n < 10 {
        (48u8 + n) as char
    } else {
        (55u8 + n) as char
    }
}

/// Spells the metadata of a call site as a name: `_EXCLUSIVE_` followed by
/// two upper-case hex digits for each byte.
pub fn span_id(site: &[u8]) -> (r: Vec<char>)
    ensures
        r@ == site_name(site@),
{
    let mut id: Vec<char> = vec!['_', 'E', 'X', 'C', 'L', 'U', 'S', 'I', 'V', 'E', '_'];
    assert(id@ =~= name_prefix());
    let mut i: usize = 0;
    while i < site.len()
        invariant
            i <= site@.len(),
            id@ == name_prefix() + hex_of(site@.subrange(0, i as int)),
        decreases site@.len() - i,
    {
        let byte = site[i];
        id.push(hex_digit_of(byte / 16));
        id.push(hex_digit_of(byte % 16));
        assert(site@.subrange(0, i + 1).drop_last() =~= site@.subrange(0, i as int));
        i = i + 1;
        assert(id@ =~= name_prefix() + hex_of(site@.subrange(0, i as int)));
    }
    assert(site@.subrange(0, i as int) =~= site@);
    id
}

/// The name that `naming` gives to the call site whose metadata reads `site`.
pub fn name_for(naming: Naming, site: &[u8]) -> (r: Vec<char>)
    ensures
        r@ == const_name(naming, site@),
{
    match naming {
        Naming::Hashed => span_id(site),
        Naming::Placeholder => {
            let r: Vec<char> = vec!['_'];
            assert(r@ =~= seq!['_']);
            r
        },
    }
}

/// Whether `c` may stand in an identifier: an ASCII letter, digit or `_`.
pub open spec fn is_ident_char(c: char) -> bool {
    ||| 'a' <= c <= 'z'
    ||| 'A' <= c <= 'Z'
    ||| '0' <= c <= '9'
    ||| c == '_'
}

/// Whether `s` is a well-formed identifier: not empty, made of identifier
/// characters, and not starting with a digit.
pub open spec fn is_identifier(s: Seq<char>) -> bool {
    &&& s.len() > 0
    &&& !('0' <= s[0] <= '9')
    &&& forall|i: int| 0 <= i < s.len() ==> is_ident_char(#[trigger] s[i])
}

proof fn lemma_hex_digit_injective(x: u8, y: u8)
    requires
        x < 16,
        y < 16,
        hex_digit(x) == hex_digit(y),
    ensures
        x == y,
{
}

proof fn lemma_hex_of_len(bytes: Seq<u8>)
    ensures
        hex_of(bytes).len() == 2 * bytes.len(),
    decreases bytes.len(),
{
    if bytes.len() > 0 {
        lemma_hex_of_len(bytes.drop_last());
    }
}

proof fn lemma_hex_of_chars(bytes: Seq<u8>)
    ensures
        forall|i: int|
            0 <= i < hex_of(bytes).len() ==> ('0' <= #[trigger] hex_of(bytes)[i] <= '9' || 'A'
                <= hex_of(bytes)[i] <= 'F'),
    decreases bytes.len(),
{
    if bytes.len() > 0 {
        lemma_hex_of_chars(bytes.drop_last());
        lemma_hex_of_len(bytes.drop_last());
    }
}

/// Distinct byte sequences are spelt by distinct digit sequences.
pub proof fn lemma_hex_of_injective(a: Seq<u8>, b: Seq<u8>)
    requires
        hex_of(a) == hex_of(b),
    ensures
        a == b,
    decreases a.len(),
{
    lemma_hex_of_len(a);
    lemma_hex_of_len(b);
    if a.len() > 0 {
        let (ha, hb) = (hex_of(a.drop_last()), hex_of(b.drop_last()));
        lemma_hex_of_len(a.drop_last());
        lemma_hex_of_len(b.drop_last());
        assert(hex_of(a) == ha + hex_pair(a.last()));
        assert(hex_of(b) == hb + hex_pair(b.last()));
        assert(ha =~= hex_of(a).subrange(0, ha.len() as int));
        assert(hb =~= hex_of(b).subrange(0, hb.len() as int));
        assert(hex_of(a)[ha.len() as int] == hex_digit(a.last() / 16));
        assert(hex_of(b)[hb.len() as int] == hex_digit(b.last() / 16));
        assert(hex_of(a)[ha.len() + 1int] == hex_digit(a.last() % 16));
        assert(hex_of(b)[hb.len() + 1int] == hex_digit(b.last() % 16));
        lemma_hex_digit_injective(a.last() / 16, b.last() / 16);
        lemma_hex_digit_injective(a.last() % 16, b.last() % 16);
        lemma_hex_of_injective(a.drop_last(), b.drop_last());
        assert(a =~= a.drop_last().push(a.last()));
        assert(b =~= b.drop_last().push(b.last()));
    } else {
        assert(a =~= b);
    }
}

/// Every name spelt from call-site metadata is a well-formed identifier.
pub proof fn lemma_site_name_is_identifier(site: Seq<u8>)
    ensures
        is_identifier(site_name(site)),
{
    lemma_hex_of_chars(site);
    let n = site_name(site);
    assert forall|i: int| 0 <= i < n.len() implies is_ident_char(#[trigger] n[i]) by {
        if i >= name_prefix().len() {
            assert(n[i] == hex_of(site)[i - name_prefix().len()]);
        }
    }
}

/// Call sites with different metadata get different names.
pub proof fn lemma_site_name_injective(a: Seq<u8>, b: Seq<u8>)
    requires
        a != b,
    ensures
        site_name(a) != site_name(b),
{
    if site_name(a) == site_name(b) {
        let k = name_prefix().len() as int;
        assert(hex_of(a) =~= site_name(a).subrange(k, site_name(a).len() as int));
        assert(hex_of(b) =~= site_name(b).subrange(k, site_name(b).len() as int));
        lemma_hex_of_injective(a, b);
    }
}

} // verus!
