use vstd::prelude::*;

verus! {

/// Identity of a workspace.
#[derive(Clone, Copy, Debug, PartialEq, Eq, Structural)]
pub struct WorkspaceId(pub u128);

/// Identity of a team.
#[derive(Clone, Copy, Debug, PartialEq, Eq, Structural)]
pub struct TeamId(pub u128);

/// Internal identity of a user.
#[derive(Clone, Copy, Debug, PartialEq, Eq, Structural)]
pub struct UserId(pub u128);

/// External identity of a user, as handed over by the authentication layer.
#[derive(Clone, Copy, Debug, PartialEq, Eq, Structural)]
pub struct AuthId(pub u128);

/// The lowercase hexadecimal digit for `n`, where `0 <= n < 16`.
pub open spec fn hex_digit(n: int) -> char {
    seq!['0', '1', '2', '3', '4', '5', '6', '7', '8', '9', 'a', 'b', 'c', 'd', 'e', 'f'][n]
}

/// Sixteen to the power `e`.
pub open spec fn pow16(e: nat) -> nat
    decreases e,
{
    if e == 0 {
        1
    } else {
        16 * pow16((e - 1) as nat)
    }
}

/// Hexadecimal digit `k` of `v`, counted from the most significant one
/// (`0 <= k < 32`).
pub open spec fn nibble(v: u128, k: int) -> int {
    (v as int / pow16((31 - k) as nat) as int) % 16
}

/// Which hexadecimal digit stands at position `i` of the hyphenated text.
pub open spec fn digit_index(i: int) -> int {
    if i < 8 {
        i
    } else if i < 13 {
        i - 1
    } else if i < 18 {
        i - 2
    } else if i < 23 {
        i - 3
    } else {
        i - 4
    }
}

/// The canonical hyphenated text of a 128-bit identifier: 36 characters,
/// `-` at positions 8, 13, 18 and 23, and elsewhere the lowercase
/// hexadecimal digits of the value, most significant first.
pub open spec fn hyphenated_text(v: u128) -> Seq<char> {
    Seq::new(
        36,
        |i: int|
            if i == 8 || i == 13 || i == 18 || i == 23 {
                '-'
            } else {
                hex_digit(nibble(v, digit_index(i)))
            },
    )
}

/// The identifier that a text denotes, if it is a well-formed UUID.
pub uninterp spec fn parsed_uuid(s: Seq<char>) -> Option<u128>;

/// Relies on `uuid::Uuid::from_u128` (big-endian) and the `Display` of
/// `uuid::Uuid::hyphenated`: lowercase hexadecimal digits in groups of 8, 4,
/// 4, 4 and 12, joined by `-`.
#[verifier::external_body]
pub(crate) fn uuid_text(v: u128) -> (r: String)
    ensures
        r@ == hyphenated_text(v),
{
    uuid::Uuid::from_u128(v).hyphenated().to_string()
}

/// Relies on `uuid::Uuid::parse_str` and `uuid::Uuid::as_u128`: the result
/// depends on the text alone, and the hyphenated text of a value reads back
/// as that value.
#[verifier::external_body]
pub(crate) fn parse_uuid(s: &str) -> (r: Option<u128>)
    ensures
        r == parsed_uuid(s@),
        forall|v: u128| s@ == #[trigger] hyphenated_text(v) ==> r == Some(v),
{
    match uuid::Uuid::parse_str(s) {
        Ok(u) => Some(u.as_u128()),
        Err(_) => None,
    }
}

} // verus!
