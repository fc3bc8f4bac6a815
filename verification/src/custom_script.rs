use vstd::prelude::*;

use crate::bytes::{bytes_eq, le_u64, read_u64_le};
use hex::FromHexError;

verus! {

/// `hex::FromHexError`, why a hex string does not decode.
#[verifier::external_type_specification]
#[verifier::external_body]
pub struct ExFromHexError(FromHexError);

/// The value of a hex digit, upper or lower case.
pub open spec fn hex_digit(c: u8) -> Option<int> {
    if 48 <= c <= 57 {
        Some(c - 48)
    } else if 97 <= c <= 102 {
        Some(c - 97 + 10)
    } else if 65 <= c <= 70 {
        Some(c - 65 + 10)
    } else {
        None
    }
}

/// Whether a string is hex: an even number of hex digits.
pub open spec fn is_hex(s: Seq<u8>) -> bool {
    s.len() % 2 == 0 && forall|i: int| 0 <= i < s.len() ==> #[trigger] hex_digit(s[i]) is Some
}

/// The bytes that a hex string stands for, two digits each, the high digit first.
pub open spec fn hex_bytes(s: Seq<u8>) -> Seq<u8> {
    Seq::new(
        s.len() / 2,
        |i: int| (hex_digit(s[2 * i])->Some_0 * 16 + hex_digit(s[2 * i + 1])->Some_0) as u8,
    )
}

/// `hex::decode`: decodes a hex string, upper or lower case, into bytes; it fails on an
/// odd length or on a character that is not a hex digit. The contract says that and
/// the bytes it gives; it says nothing of which error comes.
#[verifier::external_body]
fn hex_decode(data: &[u8]) -> (r: Result<Vec<u8>, FromHexError>)
    ensures
        r is Ok <==> is_hex(data@),
        r matches Ok(v) ==> v@ == hex_bytes(data@),
{
    hex::decode(data)
}

/// The lower case hex digit of a number under 16.
pub open spec fn hex_char(n: int) -> u8 {
    if n < 10 {
        (48 + n) as u8
    } else {
        (97 + n - 10) as u8
    }
}

/// The lower case hex string of some bytes, two digits each, the high digit first.
pub open spec fn hex_string(b: Seq<u8>) -> Seq<u8> {
    Seq::new(2 * b.len(), |i: int| if i % 2 == 0 { hex_char((b[i / 2] / 16) as int) } else { hex_char((b[i / 2] % 16) as int) })
}

fn hex_char_exec(n: u8) -> (r: u8)
    requires
        n < 16,
    ensures
        r == hex_char(n as int),
{
    if n < 10 {
        48 + n
    } else {
        97 + n - 10
    }
}

/// The lower case hex string of some bytes.
pub fn encode_hex(b: &[u8]) -> (r: Vec<u8>)
    requires
        2 * b@.len() <= usize::MAX,
    ensures
        r@ == hex_string(b@),
{
    let mut r: Vec<u8> = Vec::new();
    let mut i: usize = 0;
    while i < b.len()
        invariant
            i <= b@.len(),
            r@ == hex_string(b@).take(2 * i as int),
            2 * b@.len() <= usize::MAX,
        decreases b@.len() - i,
    {
        let hi = hex_char_exec(b[i] / 16);
        let lo = hex_char_exec(b[i] % 16);
        r.push(hi);
        r.push(lo);
        proof {
            let t = hex_string(b@);
            assert(t[2 * i as int] == hi);
            assert(t[2 * i as int + 1] == lo);
            assert(r@ =~= t.take(2 * (i + 1) as int));
        }
        i = i + 1;
    }
    assert(hex_string(b@).take(2 * b@.len() as int) =~= hex_string(b@));
    r
}

/// The 8 little-endian bytes of a `u64`.
pub open spec fn u64_le_bytes(v: u64) -> Seq<u8> {
    Seq::new(8, |i: int| ((v as int / pow256(i)) % 256) as u8)
}

/// 256 to the power of `i`.
pub open spec fn pow256(i: int) -> int
    decreases i,
{
    if i <= 0 {
        1
    } else {
        256 * pow256(i - 1)
    }
}

fn u64_to_le_bytes(v: u64) -> (r: Vec<u8>)
    ensures
        r@ == u64_le_bytes(v),
{
    let mut r: Vec<u8> = Vec::new();
    let mut x: u64 = v;
    let mut i: usize = 0;
    while i < 8
        invariant
            i <= 8,
            x as int == v as int / pow256(i as int),
            r@ == u64_le_bytes(v).take(i as int),
        decreases 8 - i,
    {
        proof {
            assert(pow256(i as int + 1) == 256 * pow256(i as int));
            assert(pow256(i as int) > 0) by {
                lemma_pow256_pos(i as int);
            }
            vstd::arithmetic::div_mod::lemma_div_denominator(v as int, pow256(i as int), 256);
        }
        r.push((x % 256) as u8);
        x = x / 256;
        assert(r@ =~= u64_le_bytes(v).take(i as int + 1));
        i = i + 1;
    }
    assert(u64_le_bytes(v).take(8) =~= u64_le_bytes(v));
    r
}

proof fn lemma_pow256_pos(i: int)
    ensures
        pow256(i) > 0,
    decreases i,
{
    if i > 0 {
        lemma_pow256_pos(i - 1);
    }
}

/// The parameters handed to a custom script of sub-accounts: the action, then the
/// quote, the owner's profit and DAS's profit as hex strings of their little-endian
/// bytes, and the arguments of the script as a hex string.
pub open spec fn spec_custom_script_params(
    action: Seq<u8>,
    quote: u64,
    owner_profit: u64,
    das_profit: u64,
    script_args: Seq<u8>,
) -> Seq<Seq<u8>> {
    seq![
        action,
        hex_string(u64_le_bytes(quote)),
        hex_string(u64_le_bytes(owner_profit)),
        hex_string(u64_le_bytes(das_profit)),
        hex_string(script_args),
    ]
}

/// Builds the parameters handed to the custom script of a SubAccountCell, from the
/// profits before and after. A profit that shrinks makes the contract abort, so it is
/// left out.
pub fn custom_script_params(
    action: &[u8],
    quote: u64,
    input_owner_profit: u64,
    output_owner_profit: u64,
    input_das_profit: u64,
    output_das_profit: u64,
    script_args: &[u8],
) -> (r: Vec<Vec<u8>>)
    requires
        input_owner_profit <= output_owner_profit,
        input_das_profit <= output_das_profit,
        2 * script_args@.len() <= usize::MAX,
    ensures
        crate::bytes::bytes_list_view(r@) == spec_custom_script_params(
            action@,
            quote,
            (output_owner_profit - input_owner_profit) as u64,
            (output_das_profit - input_das_profit) as u64,
            script_args@,
        ),
{
    let owner_profit = output_owner_profit - input_owner_profit;
    let das_profit = output_das_profit - input_das_profit;
    let mut r: Vec<Vec<u8>> = Vec::new();
    let mut a: Vec<u8> = Vec::new();
    let mut i: usize = 0;
    while i < action.len()
        invariant
            i <= action@.len(),
            a@ == action@.take(i as int),
        decreases action@.len() - i,
    {
        a.push(action[i]);
        i = i + 1;
        assert(a@ =~= action@.take(i as int));
    }
    assert(action@.take(action@.len() as int) =~= action@);
    r.push(a);
    let q = u64_to_le_bytes(quote);
    r.push(encode_hex(q.as_slice()));
    let o = u64_to_le_bytes(owner_profit);
    r.push(encode_hex(o.as_slice()));
    let d = u64_to_le_bytes(das_profit);
    r.push(encode_hex(d.as_slice()));
    r.push(encode_hex(script_args));
    assert(crate::bytes::bytes_list_view(r@) =~= spec_custom_script_params(
        action@,
        quote,
        owner_profit,
        das_profit,
        script_args@,
    ));
    r
}

/// The errors of the test custom script.
#[derive(Debug, Clone, Copy, PartialEq, Eq, Structural)]
pub enum TestScriptError {
    InvalidArgument,
    InvalidAction,
    InvalidOwnerProfit,
    InvalidDasProfit,
    InvalidSubAccount,
}

/// The action that the test custom script accepts: `create_sub_account`.
pub open spec fn create_sub_account_action() -> Seq<u8> {
    seq![99u8, 114, 101, 97, 116, 101, 95, 115, 117, 98, 95, 97, 99, 99, 111, 117, 110, 116]
}

/// The owner's profit that the test custom script expects, in shannons.
pub const TEST_OWNER_PROFIT: u64 = 24_000_000_000;

/// DAS's profit that the test custom script expects, in shannons.
pub const TEST_DAS_PROFIT: u64 = 6_000_000_000;

/// Whether the test custom script decodes its arguments without aborting: the two
/// profits are hex strings of 8 bytes, and each sub-account parameter that it reaches
/// (the header is right and every parameter before it passed) is a hex string of at
/// least 8 bytes.
pub open spec fn test_args_decode(args: Seq<Seq<u8>>, decodes: Seq<bool>) -> bool {
    args.len() >= 4 ==> {
        &&& is_hex(args[1]) && hex_bytes(args[1]).len() == 8
        &&& is_hex(args[2]) && hex_bytes(args[2]).len() == 8
        &&& test_header_ok(args) ==> forall|i: int|
            3 <= i < args.len() && (forall|j: int| 3 <= j < i ==> test_param_ok(args, decodes, j)) ==> is_hex(
                #[trigger] args[i],
            ) && hex_bytes(args[i]).len() >= 8
    }
}

/// Whether the action and the two profits are the expected ones.
pub open spec fn test_header_ok(args: Seq<Seq<u8>>) -> bool {
    &&& args[0] == create_sub_account_action()
    &&& le_u64(hex_bytes(args[1])) == TEST_OWNER_PROFIT
    &&& le_u64(hex_bytes(args[2])) == TEST_DAS_PROFIT
}

/// Whether the `i`-th parameter is a sub-account of one year that decodes.
pub open spec fn test_param_ok(args: Seq<Seq<u8>>, decodes: Seq<bool>, i: int) -> bool {
    le_u64(hex_bytes(args[i])) == 1 && decodes[i]
}

/// What the test custom script gives: at least 4 arguments; the action is
/// `create_sub_account`; the owner's and DAS's profits are the expected ones; and
/// every further parameter is a sub-account of one year that decodes.
pub open spec fn spec_verify_test_custom_script(args: Seq<Seq<u8>>, decodes: Seq<bool>) -> Result<(), TestScriptError> {
    if args.len() < 4 {
        Err(TestScriptError::InvalidArgument)
    } else if args[0] != create_sub_account_action() {
        Err(TestScriptError::InvalidAction)
    } else if le_u64(hex_bytes(args[1])) != TEST_OWNER_PROFIT {
        Err(TestScriptError::InvalidOwnerProfit)
    } else if le_u64(hex_bytes(args[2])) != TEST_DAS_PROFIT {
        Err(TestScriptError::InvalidDasProfit)
    } else if exists|i: int| 3 <= i < args.len() && !#[trigger] test_param_ok(args, decodes, i) {
        Err(TestScriptError::InvalidSubAccount)
    } else {
        Ok(())
    }
}

/// Runs the checks of the test custom script on its arguments. `decodes[i]` says
/// whether the bytes after the first 8 of the `i`-th parameter decode as a
/// sub-account.
pub fn verify_test_custom_script(args: &Vec<Vec<u8>>, decodes: &Vec<bool>) -> (r: Result<(), TestScriptError>)
    requires
        decodes@.len() == args@.len(),
        test_args_decode(crate::bytes::bytes_list_view(args@), decodes@),
    ensures
        r == spec_verify_test_custom_script(crate::bytes::bytes_list_view(args@), decodes@),
{
    let ghost av = crate::bytes::bytes_list_view(args@);
    if args.len() < 4 {
        return Err(TestScriptError::InvalidArgument);
    }
    let owner_bytes = match hex_decode(args[1].as_slice()) {
        Ok(v) => v,
        Err(_) => {
            return Err(TestScriptError::InvalidArgument);
        },
    };
    let das_bytes = match hex_decode(args[2].as_slice()) {
        Ok(v) => v,
        Err(_) => {
            return Err(TestScriptError::InvalidArgument);
        },
    };
    let owner_profit = read_u64_le(owner_bytes.as_slice());
    let das_profit = read_u64_le(das_bytes.as_slice());
    let expected_action: [u8; 18] = [99, 114, 101, 97, 116, 101, 95, 115, 117, 98, 95, 97, 99, 99, 111, 117, 110, 116];
    assert(expected_action@ =~= create_sub_account_action());
    if !bytes_eq(args[0].as_slice(), &expected_action) {
        return Err(TestScriptError::InvalidAction);
    }
    if owner_profit != TEST_OWNER_PROFIT {
        return Err(TestScriptError::InvalidOwnerProfit);
    }
    if das_profit != TEST_DAS_PROFIT {
        return Err(TestScriptError::InvalidDasProfit);
    }
    let mut i: usize = 3;
    while i < args.len()
        invariant
            av == crate::bytes::bytes_list_view(args@),
            decodes@.len() == args@.len(),
            test_args_decode(av, decodes@),
            args@.len() >= 4,
            av[0] == create_sub_account_action(),
            le_u64(hex_bytes(av[1])) == TEST_OWNER_PROFIT,
            le_u64(hex_bytes(av[2])) == TEST_DAS_PROFIT,
            3 <= i <= args@.len(),
            forall|j: int| 3 <= j < i ==> #[trigger] test_param_ok(av, decodes@, j),
        decreases args@.len() - i,
    {
        assert(is_hex(av[i as int]));
        let param = match hex_decode(args[i].as_slice()) {
            Ok(v) => v,
            Err(_) => {
                return Err(TestScriptError::InvalidArgument);
            },
        };
        let years = read_u64_le(param.as_slice());
        if years != 1 || !decodes[i] {
            assert(!test_param_ok(av, decodes@, i as int));
            return Err(TestScriptError::InvalidSubAccount);
        }
        i = i + 1;
    }
    Ok(())
}

} // verus!
