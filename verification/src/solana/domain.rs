use vstd::prelude::*;

verus! {

/// Request sent to a node: a JSON-RPC 2.0 call of one method.
#[derive(Debug, PartialEq)]
pub struct DataSend {
    pub jsonrpc: String,
    pub id: u8,
    pub method: String,
}

/// What a [`DataSend`] holds, as mathematical values.
pub struct DataSendView {
    pub jsonrpc: Seq<char>,
    pub id: u8,
    pub method: Seq<char>,
}

impl View for DataSend {
    type V = DataSendView;

    open spec fn view(&self) -> DataSendView {
        DataSendView { jsonrpc: self.jsonrpc@, id: self.id, method: self.method@ }
    }
}

/// The request that calls `method`: protocol version "2.0" and id 1.
pub open spec fn request_for(method: Seq<char>) -> DataSendView {
    DataSendView { jsonrpc: "2.0"@, id: 1, method }
}

/// The one request a handshake sends: a call of `getVersion`.
pub open spec fn version_request() -> DataSendView {
    request_for("getVersion"@)
}

impl DataSend {
    /// A JSON-RPC 2.0 request with id 1 that calls `method`.
    pub fn new(method: String) -> (data: Self)
        ensures
            data@ == request_for(method@),
    {
        let jsonrpc = "2.0".to_owned();
        let id: u8 = 1;
        Self { jsonrpc, id, method }
    }
}

impl Default for DataSend {
    /// The `getVersion` request.
    fn default() -> (data: Self)
        ensures
            data@ == version_request(),
    {
        Self::new("getVersion".to_owned())
    }
}

/// The part of a version response that identifies the node's software.
#[derive(Debug)]
pub struct DataReceiveResult {
    /// Wire name `feature-set`.
    pub feature_set: u32,
    /// Wire name `solana-core`.
    pub solana_core: String,
}

/// What a [`DataReceiveResult`] holds, as mathematical values.
pub struct DataReceiveResultView {
    pub feature_set: u32,
    pub solana_core: Seq<char>,
}

impl View for DataReceiveResult {
    type V = DataReceiveResultView;

    open spec fn view(&self) -> DataReceiveResultView {
        DataReceiveResultView { feature_set: self.feature_set, solana_core: self.solana_core@ }
    }
}

/// The version that mainnet nodes are known to run.
pub open spec fn mainnet_baseline() -> DataReceiveResultView {
    DataReceiveResultView { feature_set: 3580551090, solana_core: "1.17.23"@ }
}

/// The version that testnet nodes are known to run.
pub open spec fn testnet_baseline() -> DataReceiveResultView {
    DataReceiveResultView { feature_set: 756280933, solana_core: "1.18.1"@ }
}

/// The versions a node may report and be trusted, in the order in which they
/// are tried. The list is fixed and not empty.
pub open spec fn baselines() -> Seq<DataReceiveResultView> {
    seq![mainnet_baseline(), testnet_baseline()]
}

impl PartialEq for DataReceiveResult {
    fn eq(&self, other: &Self) -> (same: bool) {
        self.feature_set == other.feature_set && self.solana_core == other.solana_core
    }
}

impl vstd::std_specs::cmp::PartialEqSpecImpl for DataReceiveResult {
    open spec fn obeys_eq_spec() -> bool {
        true
    }

    open spec fn eq_spec(&self, other: &Self) -> bool {
        self@ == other@
    }
}

impl Default for DataReceiveResult {
    /// The mainnet baseline.
    fn default() -> (result: Self)
        ensures
            result@ == mainnet_baseline(),
    {
        Self { feature_set: 3580551090, solana_core: "1.17.23".to_owned() }
    }
}

impl DataReceiveResult {
    /// The testnet baseline.
    pub fn testnet() -> (result: Self)
        ensures
            result@ == testnet_baseline(),
    {
        Self { feature_set: 756280933, solana_core: "1.18.1".to_owned() }
    }
}

/// A node's answer to `getVersion` in the success shape.
#[derive(Debug)]
pub struct DataReceive {
    pub jsonrpc: String,
    pub result: DataReceiveResult,
    pub id: u8,
}

/// What a [`DataReceive`] holds, as mathematical values.
pub struct DataReceiveView {
    pub jsonrpc: Seq<char>,
    pub result: DataReceiveResultView,
    pub id: u8,
}

impl View for DataReceive {
    type V = DataReceiveView;

    open spec fn view(&self) -> DataReceiveView {
        DataReceiveView { jsonrpc: self.jsonrpc@, result: self.result@, id: self.id }
    }
}

/// The whole response that a node running `baseline` is expected to give:
/// protocol version "2.0", the baseline itself and id 1.
pub open spec fn expected_response(baseline: DataReceiveResultView) -> DataReceiveView {
    DataReceiveView { jsonrpc: "2.0"@, result: baseline, id: 1 }
}

impl DataReceiveView {
    /// A response is known good when it equals, field for field, the expected
    /// response of some baseline. Nothing short of equality counts.
    pub open spec fn is_known_good(self) -> bool {
        exists|i: int| 0 <= i < baselines().len() && self == expected_response(#[trigger] baselines()[i])
    }
}

impl PartialEq for DataReceive {
    fn eq(&self, other: &Self) -> (same: bool) {
        self.jsonrpc == other.jsonrpc && self.result == other.result && self.id == other.id
    }
}

impl vstd::std_specs::cmp::PartialEqSpecImpl for DataReceive {
    open spec fn obeys_eq_spec() -> bool {
        true
    }

    open spec fn eq_spec(&self, other: &Self) -> bool {
        self@ == other@
    }
}

impl Default for DataReceive {
    /// The response expected of a mainnet node.
    fn default() -> (data: Self)
        ensures
            data@ == expected_response(mainnet_baseline()),
    {
        Self::new("2.0".to_owned())
    }
}

impl DataReceive {
    /// A response with the given protocol version, the mainnet baseline and id 1.
    pub fn new(jsonrpc: String) -> (data: Self)
        ensures
            data@ == (DataReceiveView { jsonrpc: jsonrpc@, result: mainnet_baseline(), id: 1 }),
    {
        Self { jsonrpc, result: DataReceiveResult::default(), id: 1 }
    }

    /// A response with the given protocol version, the testnet baseline and id 1.
    pub fn new_testnet(jsonrpc: String) -> (data: Self)
        ensures
            data@ == (DataReceiveView { jsonrpc: jsonrpc@, result: testnet_baseline(), id: 1 }),
    {
        Self { jsonrpc, result: DataReceiveResult::testnet(), id: 1 }
    }

    /// Whether this response is one a trusted node gives.
    pub fn verify(&self) -> (ok: bool)
        ensures
            ok == self@.is_known_good(),
    {
        let default_receive = DataReceive::default();
        let default_testnet = DataReceive::new_testnet("2.0".to_owned());
        let ok = self.eq(&default_receive) || self.eq(&default_testnet);
        proof {
            lemma_known_good(self@);
        }
        ok
    }
}

/// The list of baselines is fixed: the mainnet baseline, then the testnet
/// baseline, which differ.
pub proof fn lemma_baselines()
    ensures
        baselines().len() == 2,
        baselines()[0] == mainnet_baseline(),
        baselines()[1] == testnet_baseline(),
        mainnet_baseline() != testnet_baseline(),
{
}

/// A response is known good exactly when it is the expected response of the
/// mainnet baseline or that of the testnet baseline.
pub proof fn lemma_known_good(response: DataReceiveView)
    ensures
        response.is_known_good() <==> (response == expected_response(mainnet_baseline())
            || response == expected_response(testnet_baseline())),
{
    lemma_baselines();
}

/// The error object of a JSON-RPC error response.
#[derive(Debug, PartialEq)]
pub struct DataReceiveResultError {
    pub code: i32,
    pub message: String,
}

/// What a [`DataReceiveResultError`] holds, as mathematical values.
pub struct DataReceiveResultErrorView {
    pub code: i32,
    pub message: Seq<char>,
}

impl View for DataReceiveResultError {
    type V = DataReceiveResultErrorView;

    open spec fn view(&self) -> DataReceiveResultErrorView {
        DataReceiveResultErrorView { code: self.code, message: self.message@ }
    }
}

/// JSON-RPC's code for a method that the node does not know.
pub const METHOD_NOT_FOUND: i32 = -32601;

/// The error with which a node refuses a method it does not know.
pub open spec fn method_not_found() -> DataReceiveResultErrorView {
    DataReceiveResultErrorView { code: METHOD_NOT_FOUND, message: "Method not found"@ }
}

impl Default for DataReceiveResultError {
    /// "Method not found", code -32601.
    fn default() -> (error: Self)
        ensures
            error@ == method_not_found(),
    {
        Self { code: METHOD_NOT_FOUND, message: "Method not found".to_owned() }
    }
}

/// A node's answer in the error shape: it understood the envelope and
/// refused the request.
#[derive(Debug, PartialEq)]
pub struct DataReceiveError {
    pub jsonrpc: String,
    pub error: DataReceiveResultError,
    pub id: u8,
}

/// What a [`DataReceiveError`] holds, as mathematical values.
pub struct DataReceiveErrorView {
    pub jsonrpc: Seq<char>,
    pub error: DataReceiveResultErrorView,
    pub id: u8,
}

impl View for DataReceiveError {
    type V = DataReceiveErrorView;

    open spec fn view(&self) -> DataReceiveErrorView {
        DataReceiveErrorView { jsonrpc: self.jsonrpc@, error: self.error@, id: self.id }
    }
}

impl Default for DataReceiveError {
    /// The refusal of an unknown method, with protocol version "2.0" and id 1.
    fn default() -> (data: Self)
        ensures
            data@ == (DataReceiveErrorView { jsonrpc: "2.0"@, error: method_not_found(), id: 1 }),
    {
        Self { jsonrpc: "2.0".to_owned(), error: DataReceiveResultError::default(), id: 1 }
    }
}

} // verus!
