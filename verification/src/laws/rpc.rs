//! What the node is asked, and how its numbers are read.

use vstd::prelude::*;

use crate::config::Finality;
use crate::json::JsonView;
use crate::rpc::{block_number, hex_number, http_url, BlockNumberError, RequestView, StageView};
use crate::text;

verus! {

/// A WebSocket URL is asked over HTTP at the same place; any other URL stays as it is.
pub proof fn websocket_urls_become_http(rest: Seq<char>, url: Seq<char>)
    ensures
        http_url("ws://"@ + rest) == "http://"@ + rest,
        http_url("wss://"@ + rest) == "https://"@ + rest,
        !"ws://"@.is_prefix_of(url) && !"wss://"@.is_prefix_of(url) ==> http_url(url) == url,
{
    reveal_strlit("ws://");
    reveal_strlit("wss://");
    crate::laws::text::prefix_comes_off("ws://"@, rest);
    crate::laws::text::prefix_comes_off("wss://"@, rest);
    let s = "wss://"@ + rest;
    assert(s[2] == 's');
    if "ws://"@.is_prefix_of(s) {
        assert(s.subrange(0, 5)[2] == "ws://"@[2]);
    }
}

/// The best block is the one that the chain ends in; the finalized one is asked for by its own
/// method. Everything else is asked of the block with the hash that came back.
pub proof fn finality_decides_which_block_is_asked_for(hash: Seq<char>, number: Seq<char>)
    ensures
        StageView::Hash(Finality::Best).request().method == "chain_getBlockHash"@,
        StageView::Hash(Finality::Finalized).request().method == "chain_getFinalizedHead"@,
        StageView::Hash(Finality::Best).request().params.len() == 0,
        StageView::Hash(Finality::Finalized).request().params.len() == 0,
        (StageView::Header { hash }).request().method == "chain_getHeader"@,
        (StageView::Header { hash }).request().params == seq![JsonView::Text(hash)],
        (StageView::Version { hash, number }).request().method == "state_getRuntimeVersion"@,
        (StageView::Version { hash, number }).request().params == seq![JsonView::Text(hash)],
{
}

/// A call goes out as a JSON-RPC message with its method and its parameters.
pub proof fn calls_are_json_rpc(request: RequestView)
    ensures
        request.body().at("jsonrpc"@) == Some(JsonView::Text("2.0"@)),
        request.body().at("id"@) == Some(JsonView::Number("1"@)),
        request.body().at("method"@) == Some(JsonView::Text(request.method)),
        request.body().at("params"@) == Some(JsonView::Array(request.params)),
{
    reveal_strlit("jsonrpc");
    reveal_strlit("id");
    reveal_strlit("method");
    reveal_strlit("params");
    assert("jsonrpc"@.len() == 7 && "id"@.len() == 2);
    assert("method"@.len() == 6 && "params"@.len() == 6);
    assert("method"@[0] == 'm' && "params"@[0] == 'p');
}

/// The value of a hexadecimal digit, in upper or lower case.
pub open spec fn digit_at(place: int) -> int {
    if place < 16 {
        place
    } else {
        place - 6
    }
}

/// A block number is read digit by digit: one more digit, in upper or lower case, makes it
/// sixteen times what it was, and the digit. It is refused once it does not fit.
pub proof fn block_numbers_are_hexadecimal(digits: Seq<char>, n: u64, place: int)
    requires
        digits.len() > 0,
        digits[0] != '+',
        block_number("0x"@ + digits) == Ok::<u64, BlockNumberError>(n),
        0 <= place < 22,
    ensures
        block_number("0x"@ + digits.push("0123456789abcdefABCDEF"@[place])) == if 16 * n + digit_at(
            place,
        ) <= u64::MAX {
            Ok::<u64, BlockNumberError>((16 * n + digit_at(place)) as u64)
        } else {
            Err(BlockNumberError::Bad)
        },
{
    reveal_strlit("0123456789abcdefABCDEF");
    let c = "0123456789abcdefABCDEF"@[place];
    let more = digits.push(c);
    crate::laws::text::prefix_comes_off("0x"@, digits);
    crate::laws::text::prefix_comes_off("0x"@, more);
    assert(more[0] == digits[0]);
    assert(more.drop_last() =~= digits);
    assert(more.last() == c);
    assert(hex_number(digits) == Some(n as nat));
}

/// A block number starts with `0x` and one digit at least, and holds nothing else.
pub proof fn block_numbers_start_with_a_digit(s: Seq<char>, place: int, c: char, digits: Seq<char>)
    requires
        0 <= place < 22,
        !"0123456789abcdefABCDEF"@.contains(c),
        digits.len() > 0,
    ensures
        block_number("0x"@ + seq!["0123456789abcdefABCDEF"@[place]]) == Ok::<u64, BlockNumberError>(
            digit_at(place) as u64,
        ),
        block_number("0x"@) == Err::<u64, BlockNumberError>(BlockNumberError::Bad),
        !"0x"@.is_prefix_of(s) ==> block_number(s) == Err::<u64, BlockNumberError>(
            BlockNumberError::NotHex,
        ),
        block_number("0x"@ + digits.push(c)) == Err::<u64, BlockNumberError>(BlockNumberError::Bad),
{
    reveal_strlit("0123456789abcdefABCDEF");
    let all = "0123456789abcdefABCDEF"@;
    let one = seq![all[place]];
    crate::laws::text::prefix_comes_off("0x"@, one);
    assert(one.drop_last() =~= Seq::<char>::empty());
    assert(one.last() == all[place]);
    reveal_with_fuel(hex_number, 2);
    let none = Seq::<char>::empty();
    crate::laws::text::prefix_comes_off("0x"@, none);
    assert("0x"@ + none =~= "0x"@);
    let bad = digits.push(c);
    crate::laws::text::prefix_comes_off("0x"@, bad);
    assert(crate::rpc::hex_value(c) is None) by {
        if crate::rpc::hex_value(c) is Some {
            let k: int = if '0' <= c && c <= '9' {
                c as int - '0' as int
            } else if 'a' <= c && c <= 'f' {
                c as int - 'a' as int + 10
            } else {
                c as int - 'A' as int + 16
            };
            assert(all[k] == c);
        }
    }
    let rest = crate::rpc::unsigned_digits(bad);
    assert(rest.len() > 0);
    assert(rest.last() == c);
}

} // verus!
