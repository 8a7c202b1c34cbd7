//! The questions that the supervisor puts to a Substrate node over JSON-RPC, and what it
//! makes of the answers. midnight-node serves HTTP and WebSocket on the same port, 9944
//! by default; requests go over HTTP.

use vstd::prelude::*;

use crate::config::Finality;
use crate::download::{parse_url, url_parts};
use crate::json::{meaning, meanings, Json, JsonView};
use crate::plan::ChainStatus;
use crate::text;
use crate::time::Duration;

verus! {

/// A node's JSON-RPC endpoint.
#[derive(Debug)]
pub struct RpcClient {
    url: String,
    timeout: Duration,
}

/// The HTTP URL at which the node serves what it serves at a WebSocket URL.
pub open spec fn http_url(url: Seq<char>) -> Seq<char> {
    match text::after(url, "ws://"@) {
        Some(rest) => "http://"@ + rest,
        None => match text::after(url, "wss://"@) {
            Some(rest) => "https://"@ + rest,
            None => url,
        },
    }
}

/// One call of a method of the node.
#[derive(Debug)]
pub struct Request {
    pub method: String,
    pub params: Vec<Json>,
}

/// One call of a method of the node.
pub struct RequestView {
    pub method: Seq<char>,
    pub params: Seq<JsonView>,
}

impl View for Request {
    type V = RequestView;

    open spec fn view(&self) -> RequestView {
        RequestView { method: self.method@, params: meanings(self.params@) }
    }
}

impl RequestView {
    /// The JSON-RPC message that makes the call.
    pub open spec fn body(self) -> JsonView {
        JsonView::Object(
            map![
                "jsonrpc"@ => JsonView::Text("2.0"@),
                "id"@ => JsonView::Number("1"@),
                "method"@ => JsonView::Text(self.method),
                "params"@ => JsonView::Array(self.params)
            ],
        )
    }
}

/// The error that a node answers with.
#[derive(Debug)]
pub struct RpcError {
    pub code: i64,
    pub message: String,
}

/// Why a call has no result.
#[derive(Debug)]
pub enum CallError {
    Rpc(RpcError),
    /// The answer has neither an error nor a result other than null.
    Empty,
}

/// Why a text is no block number.
#[derive(Debug, Clone, Copy, PartialEq, Eq, Structural)]
pub enum BlockNumberError {
    /// The text does not start with `0x`.
    NotHex,
    /// What follows is no hexadecimal number, or one that does not fit in 64 bits.
    Bad,
}

/// How far the reading of the chain status has come.
#[derive(Debug)]
pub enum Stage {
    /// The hash of the block to look at is asked for.
    Hash(Finality),
    /// The header of the block with this hash is asked for.
    Header { hash: String },
    /// The runtime version at the block with this hash is asked for; the header gave
    /// this block number.
    Version { hash: String, number: String },
}

/// How far the reading of the chain status has come.
pub enum StageView {
    Hash(Finality),
    Header { hash: Seq<char> },
    Version { hash: Seq<char>, number: Seq<char> },
}

impl View for Stage {
    type V = StageView;

    open spec fn view(&self) -> StageView {
        match *self {
            Stage::Hash(f) => StageView::Hash(f),
            Stage::Header { hash } => StageView::Header { hash: hash@ },
            Stage::Version { hash, number } => StageView::Version { hash: hash@, number: number@ },
        }
    }
}

/// What a node answers to the question of a stage.
#[derive(Debug)]
pub enum Answer {
    /// A block hash.
    Hash(String),
    /// The block number of a header.
    Header(String),
    /// The `spec_version` of a runtime.
    Version(u32),
}

/// What a node answers to the question of a stage.
pub enum AnswerView {
    Hash(Seq<char>),
    Header(Seq<char>),
    Version(u32),
}

impl View for Answer {
    type V = AnswerView;

    open spec fn view(&self) -> AnswerView {
        match *self {
            Answer::Hash(hash) => AnswerView::Hash(hash@),
            Answer::Header(number) => AnswerView::Header(number@),
            Answer::Version(v) => AnswerView::Version(v),
        }
    }
}

/// What comes of an answer.
#[derive(Debug)]
pub enum Progress {
    /// There is more to ask.
    Ask(Stage),
    Done(ChainStatus),
    Failed(BlockNumberError),
    /// The answer is not one to the question that was asked.
    OutOfTurn,
}

/// What comes of an answer.
pub enum ProgressView {
    Ask(StageView),
    Done(ChainStatus),
    Failed(BlockNumberError),
    OutOfTurn,
}

impl View for Progress {
    type V = ProgressView;

    open spec fn view(&self) -> ProgressView {
        match *self {
            Progress::Ask(s) => ProgressView::Ask(s@),
            Progress::Done(c) => ProgressView::Done(c),
            Progress::Failed(e) => ProgressView::Failed(e),
            Progress::OutOfTurn => ProgressView::OutOfTurn,
        }
    }
}

impl StageView {
    /// The question of a stage.
    pub open spec fn request(self) -> RequestView {
        match self {
            StageView::Hash(Finality::Best) => RequestView {
                method: "chain_getBlockHash"@,
                params: Seq::empty(),
            },
            StageView::Hash(Finality::Finalized) => RequestView {
                method: "chain_getFinalizedHead"@,
                params: Seq::empty(),
            },
            StageView::Header { hash } => RequestView {
                method: "chain_getHeader"@,
                params: seq![JsonView::Text(hash)],
            },
            StageView::Version { hash, .. } => RequestView {
                method: "state_getRuntimeVersion"@,
                params: seq![JsonView::Text(hash)],
            },
        }
    }

    /// The answer that the result of a call gives to the question of a stage: a block hash
    /// is a text, a header has its block number as a text, and a runtime has its version
    /// as a number of 32 bits.
    pub open spec fn answer(self, result: JsonView) -> Option<AnswerView> {
        match self {
            StageView::Hash(_) => match result.as_text() {
                Some(hash) => Some(AnswerView::Hash(hash)),
                None => None,
            },
            StageView::Header { .. } => match result.only_field("number"@) {
                Some(v) => match v.as_text() {
                    Some(number) => Some(AnswerView::Header(number)),
                    None => None,
                },
                None => None,
            },
            StageView::Version { .. } => match result.only_field("specVersion"@) {
                Some(v) => match v.as_u32() {
                    Some(n) => Some(AnswerView::Version(n)),
                    None => None,
                },
                None => None,
            },
        }
    }

    /// What comes of an answer to the question of a stage.
    pub open spec fn next(self, answer: AnswerView) -> ProgressView {
        match (self, answer) {
            (StageView::Hash(_), AnswerView::Hash(hash)) => ProgressView::Ask(
                StageView::Header { hash },
            ),
            (StageView::Header { hash }, AnswerView::Header(number)) => ProgressView::Ask(
                StageView::Version { hash, number },
            ),
            (
                StageView::Version { number, .. },
                AnswerView::Version(spec_version),
            ) => match block_number(number) {
                Ok(height) => ProgressView::Done(ChainStatus { height, spec_version }),
                Err(e) => ProgressView::Failed(e),
            },
            _ => ProgressView::OutOfTurn,
        }
    }
}

/// The value of a hexadecimal digit.
pub open spec fn hex_value(c: char) -> Option<nat> {
    if '0' <= c && c <= '9' {
        Some((c as nat - '0' as nat) as nat)
    } else if 'a' <= c && c <= 'f' {
        Some((c as nat - 'a' as nat + 10) as nat)
    } else if 'A' <= c && c <= 'F' {
        Some((c as nat - 'A' as nat + 10) as nat)
    } else {
        None
    }
}

/// The number that hexadecimal digits make up; none where there is something else among
/// them.
pub open spec fn hex_number(s: Seq<char>) -> Option<nat>
    decreases s.len(),
{
    if s.len() == 0 {
        Some(0)
    } else {
        match (hex_number(s.drop_last()), hex_value(s.last())) {
            (Some(front), Some(d)) => Some(16 * front + d),
            _ => None,
        }
    }
}

/// The digits of a number that may have a plus sign.
pub open spec fn unsigned_digits(s: Seq<char>) -> Seq<char> {
    if s.len() > 0 && s[0] == '+' {
        s.drop_first()
    } else {
        s
    }
}

/// The block number that a text such as `0x1a2b` stands for.
pub open spec fn block_number(s: Seq<char>) -> Result<u64, BlockNumberError> {
    match text::after(s, "0x"@) {
        None => Err(BlockNumberError::NotHex),
        Some(rest) => {
            let digits = unsigned_digits(rest);
            match hex_number(digits) {
                Some(n) => if digits.len() > 0 && n <= u64::MAX {
                    Ok(n as u64)
                } else {
                    Err(BlockNumberError::Bad)
                },
                None => Err(BlockNumberError::Bad),
            }
        },
    }
}

proof fn hex_number_grows(s: Seq<char>, i: int)
    requires
        0 <= i <= s.len(),
    ensures
        hex_number(s.take(i)) is None ==> hex_number(s) is None,
        hex_number(s) matches Some(n) ==> hex_number(s.take(i)) is Some && hex_number(
            s.take(i),
        )->0 <= n,
    decreases s.len(),
{
    if i < s.len() {
        assert(s.drop_last().take(i) == s.take(i));
        hex_number_grows(s.drop_last(), i);
    } else {
        assert(s.take(i) == s);
    }
}

fn digit_value(c: char) -> (r: Option<u64>)
    ensures
        match r {
            Some(d) => hex_value(c) == Some(d as nat) && d < 16,
            None => hex_value(c) is None,
        },
{
    if '0' <= c && c <= '9' {
        Some(c as u64 - '0' as u64)
    } else if 'a' <= c && c <= 'f' {
        Some(c as u64 - 'a' as u64 + 10)
    } else if 'A' <= c && c <= 'F' {
        Some(c as u64 - 'A' as u64 + 10)
    } else {
        None
    }
}

/// The block number that a text such as `0x1a2b` stands for.
pub fn parse_block_number(n: &str) -> (r: Result<u64, BlockNumberError>)
    ensures
        r == block_number(n@),
{
    let rest = match text::strip_prefix(n, "0x") {
        Some(rest) => rest,
        None => return Err(BlockNumberError::NotHex),
    };
    let v = text::chars_of(rest.as_str());
    let start: usize = if v.len() > 0 && v[0] == '+' {
        1
    } else {
        0
    };
    let ghost digits = unsigned_digits(rest@);
    assert(digits =~= v@.subrange(start as int, v@.len() as int));
    if v.len() == start {
        return Err(BlockNumberError::Bad);
    }
    let mut i: usize = start;
    let mut value: u64 = 0;
    assert(digits.take(0) =~= Seq::<char>::empty());
    while i < v.len()
        invariant
            start <= i <= v@.len(),
            start < v@.len(),
            digits == v@.subrange(start as int, v@.len() as int),
            digits == unsigned_digits(rest@),
            text::after(n@, "0x"@) == Some(rest@),
            hex_number(digits.take(i - start)) == Some(value as nat),
        decreases v@.len() - i,
    {
        let ghost upto = digits.take(i - start + 1);
        proof {
            assert(upto.drop_last() == digits.take(i - start));
            assert(upto.last() == v@[i as int]);
            hex_number_grows(digits, i - start + 1);
        }
        match digit_value(v[i]) {
            Some(d) => {
                if value > (u64::MAX - d) / 16 {
                    assert(16 * value + d > u64::MAX);
                    return Err(BlockNumberError::Bad);
                }
                value = 16 * value + d;
            },
            None => return Err(BlockNumberError::Bad),
        }
        i = i + 1;
    }
    assert(digits.take(digits.len() as int) == digits);
    Ok(value)
}

impl Request {
    /// The JSON-RPC message that makes the call.
    pub fn body(self) -> (r: Json)
        ensures
            r@ == self@.body(),
    {
        let r = Json::object().with("jsonrpc", Json::text("2.0")).with(
            "id",
            Json::Number("1".to_string()),
        ).with("method", Json::Text(self.method)).with("params", Json::Array(self.params));
        assert(r@ == self@.body());
        r
    }
}

impl Stage {
    /// The question of a stage.
    pub fn request(&self) -> (r: Request)
        ensures
            r@ == self@.request(),
    {
        let mut params: Vec<Json> = Vec::new();
        assert(meanings(params@) == Seq::<JsonView>::empty());
        match self {
            Stage::Hash(Finality::Best) => Request {
                method: "chain_getBlockHash".to_string(),
                params,
            },
            Stage::Hash(Finality::Finalized) => Request {
                method: "chain_getFinalizedHead".to_string(),
                params,
            },
            Stage::Header { hash } => {
                params.push(Json::Text(hash.clone()));
                proof {
                    one_text(params@, hash@);
                }
                Request { method: "chain_getHeader".to_string(), params }
            },
            Stage::Version { hash, .. } => {
                params.push(Json::Text(hash.clone()));
                proof {
                    one_text(params@, hash@);
                }
                Request { method: "state_getRuntimeVersion".to_string(), params }
            },
        }
    }

    /// What comes of an answer to the question of a stage.
    pub fn next(self, answer: Answer) -> (r: Progress)
        ensures
            r@ == self@.next(answer@),
    {
        match (self, answer) {
            (Stage::Hash(_), Answer::Hash(hash)) => Progress::Ask(Stage::Header { hash }),
            (Stage::Header { hash }, Answer::Header(number)) => Progress::Ask(
                Stage::Version { hash, number },
            ),
            (
                Stage::Version { number, .. },
                Answer::Version(spec_version),
            ) => match parse_block_number(number.as_str()) {
                Ok(height) => Progress::Done(ChainStatus { height, spec_version }),
                Err(e) => Progress::Failed(e),
            },
            _ => Progress::OutOfTurn,
        }
    }
}

/// The answer that the result of a call gives to the question of a stage; none where the
/// result has another shape.
pub fn answer(stage: &Stage, result: &Json) -> (r: Option<Answer>)
    ensures
        match r {
            Some(a) => stage@.answer(result@) == Some(a@),
            None => stage@.answer(result@) is None,
        },
{
    match stage {
        Stage::Hash(_) => match result.as_str() {
            Some(hash) => Some(Answer::Hash(hash.to_string())),
            None => None,
        },
        Stage::Header { .. } => match result.only_field("number") {
            Some(v) => match v.as_str() {
                Some(number) => Some(Answer::Header(number.to_string())),
                None => None,
            },
            None => None,
        },
        Stage::Version { .. } => match result.only_field("specVersion") {
            Some(v) => match v.as_u32() {
                Some(n) => Some(Answer::Version(n)),
                None => None,
            },
            None => None,
        },
    }
}

proof fn one_text(params: Seq<Json>, hash: Seq<char>)
    requires
        params.len() == 1,
        meaning(params[0]) == JsonView::Text(hash),
    ensures
        meanings(params) == seq![JsonView::Text(hash)],
{
    reveal_with_fuel(meanings, 2);
    assert(meanings(params) =~= seq![JsonView::Text(hash)]);
}

/// The result of a call, given the result and the error of the answer. An error counts
/// even beside a result; a null result is none.
pub fn reply(result: Option<Json>, error: Option<RpcError>) -> (r: Result<Json, CallError>)
    ensures
        match (error, result) {
            (Some(e), _) => r matches Err(CallError::Rpc(found)) && found == e,
            (None, Some(v)) => if v@ == JsonView::Null {
                r matches Err(CallError::Empty)
            } else {
                r matches Ok(found) && found == v
            },
            (None, None) => r matches Err(CallError::Empty),
        },
{
    if let Some(e) = error {
        return Err(CallError::Rpc(e));
    }
    match result {
        None => Err(CallError::Empty),
        Some(Json::Null) => Err(CallError::Empty),
        Some(v) => Ok(v),
    }
}

impl RpcClient {
    /// The URL that requests go to.
    pub closed spec fn target(self) -> Seq<char> {
        self.url@
    }

    /// How long a request may take.
    pub closed spec fn patience(self) -> Duration {
        self.timeout
    }

    /// The endpoint at `url`, which may be given as a WebSocket URL.
    pub fn new(url: &str, timeout: Duration) -> (r: Result<RpcClient, url::ParseError>)
        ensures
            match r {
                Ok(c) => url_parts(http_url(url@)) is Some && c.target() == http_url(url@)
                    && c.patience() == timeout,
                Err(_) => url_parts(http_url(url@)) is None,
            },
    {
        let url = to_http(url);
        match parse_url(url.as_str()) {
            Ok(_) => Ok(RpcClient { url, timeout }),
            Err(e) => Err(e),
        }
    }

    pub fn url(&self) -> (r: &str)
        ensures
            r@ == self.target(),
    {
        self.url.as_str()
    }

    pub fn timeout(&self) -> (r: Duration)
        ensures
            r == self.patience(),
    {
        self.timeout
    }

    /// Start to read the block number and the runtime `spec_version` at the best or the
    /// finalized block.
    pub fn status(&self, finality: Finality) -> (r: Stage)
        ensures
            r@ == StageView::Hash(finality),
    {
        Stage::Hash(finality)
    }
}

/// The HTTP URL at which the node serves what it serves at a WebSocket URL.
pub fn to_http(url: &str) -> (r: String)
    ensures
        r@ == http_url(url@),
{
    if let Some(rest) = text::strip_prefix(url, "ws://") {
        let mut r = "http://".to_string();
        r.append(rest.as_str());
        r
    } else if let Some(rest) = text::strip_prefix(url, "wss://") {
        let mut r = "https://".to_string();
        r.append(rest.as_str());
        r
    } else {
        url.to_string()
    }
}

/// The block number and the `spec_version` of a status are read at one block hash, the
/// one that the node gave first, so that they are consistent.
pub proof fn status_is_read_at_one_block(
    finality: Finality,
    hash: Seq<char>,
    number: Seq<char>,
    spec_version: u32,
)
    ensures
        ({
            let first = StageView::Hash(finality);
            let second = StageView::Header { hash };
            let third = StageView::Version { hash, number };
            &&& first.next(AnswerView::Hash(hash)) == ProgressView::Ask(second)
            &&& second.next(AnswerView::Header(number)) == ProgressView::Ask(third)
            &&& second.request().params == seq![JsonView::Text(hash)]
            &&& third.request().params == second.request().params
            &&& third.next(AnswerView::Version(spec_version)) == match block_number(number) {
                Ok(height) => ProgressView::Done(ChainStatus { height, spec_version }),
                Err(e) => ProgressView::Failed(e),
            }
        }),
{
}

/// A status comes only of the third answer: from the first question on, every sequence
/// of answers that ends in a status is a hash, a header and a version.
pub proof fn status_takes_three_answers(finality: Finality, a: AnswerView, b: AnswerView)
    ensures
        !(StageView::Hash(finality).next(a) is Done),
        StageView::Hash(finality).next(a) matches ProgressView::Ask(second)
            ==> a is Hash && !(second.next(b) is Done) && (second.next(b) is Ask ==> b is Header),
{
}

impl StageView {
    /// The result of a call either gives no answer, or one to the question that was asked.
    pub proof fn answers_are_in_turn(self, result: JsonView)
        ensures
            self.answer(result) matches Some(a) ==> !(self.next(a) is OutOfTurn),
    {
    }
}

/// The status that three results of calls give, from the first question on: the number of
/// the header and the version of the runtime.
pub proof fn status_is_what_the_results_say(
    finality: Finality,
    hash: Seq<char>,
    header: JsonView,
    runtime: JsonView,
    number: Seq<char>,
    height: u64,
    spec_version: u32,
)
    requires
        header.at("number"@) == Some(JsonView::Text(number)),
        block_number(number) == Ok::<u64, BlockNumberError>(height),
        runtime.at("specVersion"@) == Some(JsonView::of_number(spec_version as nat)),
    ensures
        ({
            let first = StageView::Hash(finality);
            let second = StageView::Header { hash };
            let third = StageView::Version { hash, number };
            &&& first.answer(JsonView::Text(hash)) matches Some(a) && first.next(a)
                == ProgressView::Ask(second)
            &&& second.answer(header) matches Some(a) && second.next(a) == ProgressView::Ask(third)
            &&& third.answer(runtime) matches Some(a) && third.next(a) == ProgressView::Done(
                ChainStatus { height, spec_version },
            )
        }),
{
    text::decimal_is_read_back(spec_version as nat);
}

} // verus!
