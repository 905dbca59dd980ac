//! CDP-level profile operations over the session pipe.
//!
//! They run in the exclusive window after Chrome is ready and before the pipe
//! is bridged to the client. Cookies use browser-level `Storage.*` (no target
//! attach); localStorage needs a live frame per origin, which a synthetic blank
//! document at that origin gives without touching the network.

use crate::chrome::client;
use crate::chrome::client::{CdpClient, CdpError, ReplyView};
use crate::json;
use crate::json::{Json, JsonView, Member};
use crate::profile::cookie;
use crate::profile::cookie::{Cookie, CookieParam, DropCounts, DropReason};
use crate::scalar::Scalar;
use crate::text;
use vstd::prelude::*;

verus! {

/// Error from a CDP-level profile operation.
#[derive(Debug)]
pub enum ProfileCdpError {
    /// A CDP command failed.
    Cdp(CdpError),
    /// A CDP reply could not be decoded into the profile model.
    Decode(String),
    /// A CDP reply was missing an expected field.
    Unexpected(&'static str),
}

impl ProfileCdpError {
    /// What the error says.
    pub open spec fn says(self) -> Seq<char> {
        match self {
            ProfileCdpError::Cdp(e) => e.says(),
            ProfileCdpError::Decode(e) => "decoding CDP response: "@ + e@,
            ProfileCdpError::Unexpected(what) => "unexpected CDP response: "@ + what@,
        }
    }

    /// The error as text.
    pub fn message(&self) -> (r: String)
        ensures
            r@ == self.says(),
    {
        match self {
            ProfileCdpError::Cdp(e) => e.message(),
            ProfileCdpError::Decode(e) => {
                let mut s = "decoding CDP response: ".to_owned();
                s.append(e.as_str());
                s
            },
            ProfileCdpError::Unexpected(what) => {
                let mut s = "unexpected CDP response: ".to_owned();
                s.append(what);
                s
            },
        }
    }
}

/// Outcome of injecting cookies: how many were applied and why any were dropped.
#[derive(Debug, Clone, Copy, PartialEq, Eq, Structural)]
pub struct CookieApplyReport {
    /// Cookies sent to the browser.
    pub applied: usize,
    /// Cookies dropped as unsafe or un-restorable, by reason.
    pub dropped: DropCounts,
}

/// One localStorage key/value pair.
#[derive(Debug, PartialEq, Eq)]
pub struct StorageEntry {
    /// The localStorage key.
    pub name: String,
    /// The localStorage value.
    pub value: String,
}

impl View for StorageEntry {
    type V = (Seq<char>, Seq<char>);

    open spec fn view(&self) -> (Seq<char>, Seq<char>) {
        (self.name@, self.value@)
    }
}

/// The views of a list of entries.
pub open spec fn entries_view(entries: Seq<StorageEntry>) -> Seq<(Seq<char>, Seq<char>)> {
    Seq::new(entries.len(), |i: int| entries[i]@)
}

/// A single origin's localStorage, keyed by its first-party origin.
#[derive(Debug, PartialEq, Eq)]
pub struct OriginState {
    /// The origin (e.g. `https://example.com`) whose store this is.
    pub origin: String,
    /// The origin's localStorage entries.
    pub local_storage: Vec<StorageEntry>,
}

impl View for OriginState {
    type V = (Seq<char>, Seq<(Seq<char>, Seq<char>)>);

    open spec fn view(&self) -> (Seq<char>, Seq<(Seq<char>, Seq<char>)>) {
        (self.origin@, entries_view(self.local_storage@))
    }
}

/// One step of a script that runs on an attached page target.
#[derive(Debug)]
pub enum Step {
    /// Send a command and wait for its result.
    Call {
        /// The command.
        method: String,
        /// Its parameters.
        params: Json,
    },
    /// Navigate the top-level frame behind a stub and wait for the load.
    Visit {
        /// Where to.
        url: String,
    },
}

/// A step as it is stated.
pub enum StepView {
    /// Send a command and wait for its result.
    Call(Seq<char>, JsonView),
    /// Navigate the top-level frame behind a stub and wait for the load.
    Visit(Seq<char>),
}

impl View for Step {
    type V = StepView;

    open spec fn view(&self) -> StepView {
        match self {
            Step::Call { method, params } => StepView::Call(method@, params@),
            Step::Visit { url } => StepView::Visit(url@),
        }
    }
}

/// The steps of a script, as they are stated.
pub open spec fn steps_view(steps: Seq<Step>) -> Seq<StepView> {
    Seq::new(steps.len(), |i: int| steps[i]@)
}

/// An object without members.
pub open spec fn nothing() -> JsonView {
    JsonView::Object(Seq::empty())
}

fn no_params() -> (r: Json)
    ensures
        r@ == nothing(),
{
    let members: Vec<Member> = Vec::new();
    let r = Json::object(members);
    assert(json::members_view(members@) =~= Seq::empty());
    r
}

fn call_step(method: &str, params: Json) -> (r: Step)
    ensures
        r@ == StepView::Call(method@, params@),
{
    Step::Call { method: method.to_owned(), params }
}

/// The parameters that intercept every request.
pub open spec fn every_request() -> JsonView {
    JsonView::Object(
        seq![
            (
                "patterns"@,
                JsonView::Array(
                    seq![JsonView::Object(seq![("urlPattern"@, JsonView::Str("*"@))])],
                ),
            ),
        ],
    )
}

fn intercept_all() -> (r: Json)
    ensures
        r@ == every_request(),
{
    let mut pattern: Vec<Member> = Vec::new();
    pattern.push(json::member("urlPattern", Json::string("*")));
    assert(json::members_view(pattern@) =~= seq![("urlPattern"@, JsonView::Str("*"@))]);
    let mut patterns: Vec<Json> = Vec::new();
    patterns.push(Json::object(pattern));
    assert(json::items_view(patterns@) =~= seq![
        JsonView::Object(seq![("urlPattern"@, JsonView::Str("*"@))]),
    ]);
    let mut members: Vec<Member> = Vec::new();
    members.push(json::member("patterns", Json::array(patterns)));
    assert(json::members_view(members@) =~= every_request()->Object_0);
    Json::object(members)
}

/// Steps that begin and end interception.
pub open spec fn enable_steps() -> Seq<StepView> {
    seq![
        StepView::Call("Page.enable"@, nothing()),
        StepView::Call("Fetch.enable"@, every_request()),
    ]
}

/// Interception is removed and the synthetic page cleared before the client
/// sees it.
pub open spec fn disable_steps() -> Seq<StepView> {
    seq![StepView::Call("Fetch.disable"@, nothing()), StepView::Visit("about:blank"@)]
}

/// The parameters that evaluate a script and return its value.
pub open spec fn evaluation(expression: Seq<char>) -> JsonView {
    JsonView::Object(
        seq![("expression"@, JsonView::Str(expression)), ("returnByValue"@, JsonView::Bool(true))],
    )
}

fn evaluate(expression: &str) -> (r: Json)
    ensures
        r@ == evaluation(expression@),
{
    let mut members: Vec<Member> = Vec::new();
    members.push(json::member("expression", Json::string(expression)));
    members.push(json::member("returnByValue", Json::Bool(true)));
    assert(json::members_view(members@) =~= evaluation(expression@)->Object_0);
    Json::object(members)
}

/// A localStorage entry as JSON.
pub open spec fn entry_json(e: (Seq<char>, Seq<char>)) -> JsonView {
    JsonView::Object(seq![("name"@, JsonView::Str(e.0)), ("value"@, JsonView::Str(e.1))])
}

/// The JSON text of a list of entries: an array of objects, each with the
/// entry's name under `name` and its value under `value`.
pub open spec fn stored_text(entries: Seq<(Seq<char>, Seq<char>)>) -> Seq<char> {
    json::json_text(
        json::keyed(
            JsonView::Array(
                Seq::new(
                    entries.len(),
                    |i: int|
                        JsonView::Object(
                            seq![
                                ("name"@, JsonView::Str(entries[i].0)),
                                ("value"@, JsonView::Str(entries[i].1)),
                            ],
                        ),
                ),
            ),
        ),
    )
}

/// The script that replaces a document's localStorage by `entries`: their JSON
/// text between code that clears the store and code that sets each.
pub open spec fn restoring(entries: Seq<(Seq<char>, Seq<char>)>) -> Seq<char> {
    "(()=>{try{localStorage.clear();for(const e of "@ + json::json_text(
        json::keyed(JsonView::Array(entries.map_values(|e: (Seq<char>, Seq<char>)| entry_json(e)))),
    )
        + "){localStorage.setItem(e.name,e.value);}return true;}catch(err){return String(err);}})()"@
}

/// The script that replaces a document's localStorage by `entries`.
pub fn restore_script(entries: &Vec<StorageEntry>) -> (r: String)
    ensures
        r@ == restoring(entries_view(entries@)),
        r@ == "(()=>{try{localStorage.clear();for(const e of "@ + stored_text(
            entries_view(entries@),
        )
            + "){localStorage.setItem(e.name,e.value);}return true;}catch(err){return String(err);}})()"@,
{
    let mut items: Vec<Json> = Vec::new();
    let ghost all = entries_view(entries@);
    let mut i: usize = 0;
    while i < entries.len()
        invariant
            i <= entries@.len(),
            all == entries_view(entries@),
            items@.len() == i,
            forall|k: int| 0 <= k < i ==> (#[trigger] items@[k])@ == entry_json(all[k]),
        decreases entries.len() - i,
    {
        let mut members: Vec<Member> = Vec::new();
        members.push(json::member("name", Json::string(entries[i].name.as_str())));
        members.push(json::member("value", Json::string(entries[i].value.as_str())));
        assert(json::members_view(members@) =~= entry_json(all[i as int])->Object_0);
        items.push(Json::object(members));
        i += 1;
    }
    assert(json::items_view(items@) =~= all.map_values(|e: (Seq<char>, Seq<char>)| entry_json(e)));
    proof {
        restoring_sets_each_name_to_its_value(all);
    }
    let data = json::write_text(&Json::array(items));
    let mut s = "(()=>{try{localStorage.clear();for(const e of ".to_owned();
    s.append(data.as_str());
    s.append(
        "){localStorage.setItem(e.name,e.value);}return true;}catch(err){return String(err);}})()",
    );
    s
}

/// The script that lists a document's localStorage.
pub open spec fn capturing() -> Seq<char> {
    "(()=>{try{return Object.keys(localStorage).map(k=>({name:k,value:localStorage.getItem(k)}));}catch(e){return [];}})()"@
}

/// The steps at the first `n` origins: visit, and evaluate that origin's
/// script.
pub open spec fn origin_steps(
    origins: Seq<Seq<char>>,
    scripts: spec_fn(int) -> Seq<char>,
    n: nat,
) -> Seq<StepView>
    decreases n,
{
    if n == 0 {
        Seq::empty()
    } else {
        origin_steps(origins, scripts, (n - 1) as nat) + seq![
            StepView::Visit(origins[n - 1] + "/"@),
            StepView::Call("Runtime.evaluate"@, evaluation(scripts(n - 1))),
        ]
    }
}

/// A script over origins: nothing without any, otherwise the steps at each
/// between those that begin and end interception.
pub open spec fn script_of(origins: Seq<Seq<char>>, scripts: spec_fn(int) -> Seq<char>) -> Seq<
    StepView,
> {
    if origins.len() == 0 {
        Seq::empty()
    } else {
        enable_steps() + origin_steps(origins, scripts, origins.len()) + disable_steps()
    }
}

fn visit_step(origin: &str) -> (r: Step)
    ensures
        r@ == StepView::Visit(origin@ + "/"@),
{
    let mut url = origin.to_owned();
    url.append("/");
    Step::Visit { url }
}

fn enable_interception() -> (r: Vec<Step>)
    ensures
        steps_view(r@) == enable_steps(),
{
    let mut steps: Vec<Step> = Vec::new();
    steps.push(call_step("Page.enable", no_params()));
    steps.push(call_step("Fetch.enable", intercept_all()));
    assert(steps_view(steps@) =~= enable_steps());
    steps
}

fn disable_interception(steps: &mut Vec<Step>)
    ensures
        steps_view(final(steps)@) == steps_view(old(steps)@) + disable_steps(),
{
    let ghost before = steps_view(steps@);
    steps.push(call_step("Fetch.disable", no_params()));
    steps.push(Step::Visit { url: "about:blank".to_owned() });
    assert(steps_view(steps@) =~= before + disable_steps());
}

/// The origins of a list of states.
pub open spec fn origins_view(origins: Seq<OriginState>) -> Seq<Seq<char>> {
    Seq::new(origins.len(), |i: int| origins[i].origin@)
}

/// The scripts that restore a list of states.
pub open spec fn restore_scripts(origins: Seq<OriginState>) -> spec_fn(int) -> Seq<char> {
    |i: int| restoring(entries_view(origins[i].local_storage@))
}

/// The script that restores localStorage for each origin by loading a synthetic
/// blank document at that origin (top-level frame, no network) and writing the
/// entries in. Restoring via the top-level frame lands the writes in the
/// origin's first-party partition — the same bucket the site reads.
pub fn apply_local_storage(origins: &Vec<OriginState>) -> (r: Vec<Step>)
    ensures
        steps_view(r@) == script_of(origins_view(origins@), restore_scripts(origins@)),
{
    if origins.len() == 0 {
        let steps: Vec<Step> = Vec::new();
        assert(steps_view(steps@) =~= Seq::empty());
        return steps;
    }
    let mut steps = enable_interception();
    let ghost all = origins_view(origins@);
    let ghost scripts = restore_scripts(origins@);
    let mut i: usize = 0;
    assert(enable_steps() + origin_steps(all, scripts, 0) =~= enable_steps());
    while i < origins.len()
        invariant
            i <= origins@.len(),
            all == origins_view(origins@),
            scripts == restore_scripts(origins@),
            steps_view(steps@) == enable_steps() + origin_steps(all, scripts, i as nat),
        decreases origins.len() - i,
    {
        let ghost before = steps_view(steps@);
        let script = restore_script(&origins[i].local_storage);
        steps.push(visit_step(origins[i].origin.as_str()));
        steps.push(call_step("Runtime.evaluate", evaluate(script.as_str())));
        proof {
            assert(steps_view(steps@) =~= before + seq![
                StepView::Visit(all[i as int] + "/"@),
                StepView::Call("Runtime.evaluate"@, evaluation(scripts(i as int))),
            ]);
            assert(steps_view(steps@) =~= enable_steps() + origin_steps(
                all,
                scripts,
                (i + 1) as nat,
            ));
        }
        i += 1;
    }
    disable_interception(&mut steps);
    steps
}

/// The script that reads the current localStorage of each of `origins` by
/// loading a synthetic blank document at each. Non-destructive.
pub fn capture_local_storage(origins: &Vec<String>) -> (r: Vec<Step>)
    ensures
        steps_view(r@) == script_of(text::views(origins@), |i: int| capturing()),
{
    let ghost all = text::views(origins@);
    let ghost scripts = |i: int| capturing();
    if origins.len() == 0 {
        let steps: Vec<Step> = Vec::new();
        assert(steps_view(steps@) =~= Seq::empty());
        return steps;
    }
    let mut steps = enable_interception();
    let mut i: usize = 0;
    assert(enable_steps() + origin_steps(all, scripts, 0) =~= enable_steps());
    while i < origins.len()
        invariant
            i <= origins@.len(),
            all == text::views(origins@),
            scripts == (|i: int| capturing()),
            steps_view(steps@) == enable_steps() + origin_steps(all, scripts, i as nat),
        decreases origins.len() - i,
    {
        let ghost before = steps_view(steps@);
        steps.push(visit_step(origins[i].as_str()));
        steps.push(
            call_step(
                "Runtime.evaluate",
                evaluate(
                    "(()=>{try{return Object.keys(localStorage).map(k=>({name:k,value:localStorage.getItem(k)}));}catch(e){return [];}})()",
                ),
            ),
        );
        proof {
            assert(steps_view(steps@) =~= before + seq![
                StepView::Visit(all[i as int] + "/"@),
                StepView::Call("Runtime.evaluate"@, evaluation(scripts(i as int))),
            ]);
            assert(steps_view(steps@) =~= enable_steps() + origin_steps(
                all,
                scripts,
                (i + 1) as nat,
            ));
        }
        i += 1;
    }
    disable_interception(&mut steps);
    steps
}

/// The value that an evaluation returned, if it returned one.
pub open spec fn value_of(result: JsonView) -> Option<JsonView> {
    match result.get("result"@) {
        Some(v) => v.get("value"@),
        None => None,
    }
}

/// A value that may be absent, as it is stated.
pub open spec fn opt_json(v: Option<&Json>) -> Option<JsonView> {
    match v {
        Some(j) => Some(j@),
        None => None,
    }
}

/// The value that an evaluation returned, if it returned one.
pub fn evaluated_value(result: &Json) -> (r: Option<&Json>)
    ensures
        opt_json(r) == value_of(result@),
{
    match result.get("result") {
        Some(v) => v.get("value"),
        None => None,
    }
}

/// What was read at each of `origins` origins, out of the results of a capture
/// script: the value of that origin's evaluation, which follows the two calls
/// that begin interception and the evaluations at the origins before. An
/// evaluation that returned no value, or that was not made, read nothing.
pub fn captured_values(results: &Vec<Json>, origins: usize) -> (r: Vec<Option<&Json>>)
    ensures
        r@.len() == origins,
        forall|k: int|
            0 <= k < origins ==> opt_json(#[trigger] r@[k]) == (if 2 + k < results@.len() {
                value_of(results@[2 + k]@)
            } else {
                None
            }),
{
    let mut out: Vec<Option<&Json>> = Vec::new();
    while out.len() < origins
        invariant
            out@.len() <= origins,
            forall|k: int|
                0 <= k < out@.len() ==> opt_json(#[trigger] out@[k]) == (if 2 + k < results@.len() {
                    value_of(results@[2 + k]@)
                } else {
                    None
                }),
        decreases origins - out.len(),
    {
        let k: usize = out.len();
        let value = if results.len() >= 2 && k < results.len() - 2 {
            evaluated_value(&results[k + 2])
        } else {
            None
        };
        out.push(value);
    }
    out
}

/// The captured states: each origin with what was read there, without those
/// that have nothing.
pub open spec fn captured_of(
    origins: Seq<Seq<char>>,
    found: Seq<Seq<(Seq<char>, Seq<char>)>>,
) -> Seq<(Seq<char>, Seq<(Seq<char>, Seq<char>)>)>
    decreases origins.len(),
{
    if origins.len() == 0 || found.len() == 0 {
        Seq::empty()
    } else {
        let rest = captured_of(origins.skip(1), found.skip(1));
        if found[0].len() == 0 {
            rest
        } else {
            seq![(origins[0], found[0])] + rest
        }
    }
}

/// The states of a list, as they are stated.
pub open spec fn states_view(states: Seq<OriginState>) -> Seq<
    (Seq<char>, Seq<(Seq<char>, Seq<char>)>),
> {
    Seq::new(states.len(), |i: int| states[i]@)
}

/// The lists of entries, as they are stated.
pub open spec fn lists_view(lists: Seq<Vec<StorageEntry>>) -> Seq<Seq<(Seq<char>, Seq<char>)>> {
    Seq::new(lists.len(), |i: int| entries_view(lists[i]@))
}

/// Puts what was read at each origin together. Origins with no entries are
/// omitted.
pub fn captured_states(origins: &Vec<String>, found: Vec<Vec<StorageEntry>>) -> (r: Vec<
    OriginState,
>)
    ensures
        states_view(r@) == captured_of(text::views(origins@), lists_view(found@)),
{
    let mut found = found;
    let ghost all = lists_view(found@);
    let ghost names = text::views(origins@);
    let mut out: Vec<OriginState> = Vec::new();
    let mut i: usize = 0;
    assert(names.skip(0) =~= names);
    assert(states_view(out@) + captured_of(names, all) =~= captured_of(names, all));
    while i < origins.len() && found.len() > 0
        invariant
            i <= origins@.len(),
            names == text::views(origins@),
            states_view(out@) + captured_of(names.skip(i as int), lists_view(found@))
                == captured_of(names, all),
        decreases origins.len() - i,
    {
        let ghost before = out@;
        let ghost rest = found@;
        let entries = found.remove(0);
        proof {
            assert(names.skip(i as int)[0] == origins@[i as int]@);
            assert(names.skip(i as int).skip(1) =~= names.skip(i + 1));
            assert(lists_view(rest)[0] == entries_view(entries@));
            assert(lists_view(rest).skip(1) =~= lists_view(found@));
        }
        if entries.len() > 0 {
            let ghost e = entries_view(entries@);
            let state = OriginState { origin: origins[i].clone(), local_storage: entries };
            out.push(state);
            assert(states_view(out@) =~= states_view(before) + seq![(names[i as int], e)]);
            assert(states_view(out@) + captured_of(names.skip(i + 1), lists_view(found@))
                =~= states_view(before) + captured_of(names.skip(i as int), lists_view(rest)));
        }
        i += 1;
    }
    assert(states_view(out@) + Seq::empty() =~= states_view(out@));
    out
}

/// What a message means to a navigation behind the stub.
pub enum StubView {
    /// A request is paused: answer it with an empty in-origin document.
    Fulfill(Seq<char>),
    /// The page has loaded.
    Loaded,
    /// Nothing.
    Ignore,
}

/// What a message means to a navigation behind the stub.
pub open spec fn stub_of(msg: JsonView) -> StubView {
    let method = msg.at("method"@).chars();
    if method == Some("Fetch.requestPaused"@) {
        StubView::Fulfill(
            match msg.at("params"@).at("requestId"@).chars() {
                Some(id) => id,
                None => Seq::empty(),
            },
        )
    } else if method == Some("Page.loadEventFired"@) {
        StubView::Loaded
    } else {
        StubView::Ignore
    }
}

/// The parameters that answer a request with an empty document.
pub open spec fn fulfillment(request_id: Seq<char>) -> JsonView {
    JsonView::Object(
        seq![
            ("requestId"@, JsonView::Str(request_id)),
            ("responseCode"@, JsonView::UInt(200)),
            (
                "responseHeaders"@,
                JsonView::Array(
                    seq![
                        JsonView::Object(
                            seq![
                                ("name"@, JsonView::Str("Content-Type"@)),
                                ("value"@, JsonView::Str("text/html"@)),
                            ],
                        ),
                    ],
                ),
            ),
        ],
    )
}

fn fulfill(request_id: &str) -> (r: Json)
    ensures
        r@ == fulfillment(request_id@),
{
    let mut header: Vec<Member> = Vec::new();
    header.push(json::member("name", Json::string("Content-Type")));
    header.push(json::member("value", Json::string("text/html")));
    assert(json::members_view(header@) =~= seq![
        ("name"@, JsonView::Str("Content-Type"@)),
        ("value"@, JsonView::Str("text/html"@)),
    ]);
    let mut headers: Vec<Json> = Vec::new();
    headers.push(Json::object(header));
    let ghost want = fulfillment(request_id@)->Object_0;
    assert(json::items_view(headers@) =~= want[2].1->Array_0);
    let mut members: Vec<Member> = Vec::new();
    members.push(json::member("requestId", Json::string(request_id)));
    members.push(json::member("responseCode", Json::UInt(200)));
    members.push(json::member("responseHeaders", Json::array(headers)));
    assert(json::members_view(members@) =~= want);
    Json::object(members)
}

/// The parameters of a navigation.
pub open spec fn navigation(url: Seq<char>) -> JsonView {
    JsonView::Object(seq![("url"@, JsonView::Str(url))])
}

fn navigate(url: &str) -> (r: Json)
    ensures
        r@ == navigation(url@),
{
    let mut members: Vec<Member> = Vec::new();
    members.push(json::member("url", Json::string(url)));
    assert(json::members_view(members@) =~= navigation(url@)->Object_0);
    Json::object(members)
}

/// Where a running script stands.
#[derive(Debug, Clone, Copy, PartialEq, Eq, Structural)]
pub enum Phase {
    /// The next step is to be sent.
    Ready,
    /// A command was sent under this id; its reply is awaited.
    Awaiting(u64),
    /// A navigation was sent; its load is awaited.
    Loading,
}

/// What the runner of a script has to do.
#[derive(Debug)]
pub enum Todo {
    /// Write these bytes to the pipe.
    Send(Vec<u8>),
    /// Receive a message and hand it over.
    Receive,
    /// The script is done.
    Finished,
}

/// A script running on an attached page target.
pub struct Script {
    /// Its steps.
    pub steps: Vec<Step>,
    /// The target's session.
    pub session_id: String,
    /// The client that numbers its commands.
    pub client: CdpClient,
    /// How many steps are done.
    pub done: usize,
    /// Where the current one stands.
    pub phase: Phase,
    /// A paused request that is to be answered first.
    pub paused: Option<String>,
    /// The results of the calls that are done, in order.
    pub results: Vec<Json>,
}

/// How many of these steps are calls.
pub open spec fn calls_in(steps: Seq<StepView>) -> nat
    decreases steps.len(),
{
    if steps.len() == 0 {
        0
    } else {
        calls_in(steps.drop_last()) + if steps.last() is Call {
            1nat
        } else {
            0nat
        }
    }
}

impl Script {
    /// The result of the `j`th step, which is a call that is done: the calls
    /// before it have theirs in front.
    pub open spec fn answer_to(self, j: int) -> JsonView {
        self.results@[calls_in(steps_view(self.steps@).take(j)) as int]@
    }

    /// A script has at most as many steps done as it has, and a result for each
    /// call among them.
    pub open spec fn wf(self) -> bool {
        &&& self.done <= self.steps@.len()
        &&& self.results@.len() == calls_in(steps_view(self.steps@).take(self.done as int))
        &&& !(self.phase is Ready) ==> self.done < self.steps@.len()
        &&& self.phase matches Phase::Awaiting(_) ==> self.steps@[self.done as int] is Call
        &&& self.phase is Loading ==> self.steps@[self.done as int] is Visit
    }

    /// A script that has not begun.
    pub fn new(client: CdpClient, session_id: &str, steps: Vec<Step>) -> (r: Script)
        ensures
            r.wf(),
            r.steps == steps,
            r.session_id@ == session_id@,
            r.client == client,
            r.done == 0,
            r.phase is Ready,
            r.paused is None,
            r.results@.len() == 0,
    {
        assert(steps_view(steps@).take(0) =~= Seq::empty());
        Script {
            steps,
            session_id: session_id.to_owned(),
            client,
            done: 0,
            phase: Phase::Ready,
            paused: None,
            results: Vec::new(),
        }
    }

    /// What is sent for a command of this script.
    pub open spec fn sent(self, method: Seq<char>, params: JsonView) -> Seq<u8> {
        client::wire_of(
            client::envelope_of(self.client.next_id, method, params, Some(self.session_id@)),
        )
    }

    /// Decides what to do next: answer a paused request, send the next step,
    /// receive, or finish.
    pub fn next(&mut self) -> (r: Todo)
        requires
            old(self).wf(),
            old(self).client.next_id < u64::MAX,
        ensures
            final(self).wf(),
            final(self).steps == old(self).steps,
            final(self).session_id == old(self).session_id,
            final(self).done == old(self).done,
            final(self).results == old(self).results,
            final(self).paused is None,
            match old(self).paused {
                Some(id) => {
                    &&& r matches Todo::Send(bytes) && bytes@ == old(self).sent(
                        "Fetch.fulfillRequest"@,
                        fulfillment(id@),
                    )
                    &&& final(self).phase == old(self).phase
                    &&& final(self).client.next_id == old(self).client.next_id + 1
                },
                None => match old(self).phase {
                    Phase::Ready => if old(self).done == old(self).steps@.len() {
                        r is Finished && *final(self) == *old(self)
                    } else {
                        &&& final(self).client.next_id == old(self).client.next_id + 1
                        &&& match old(self).steps@[old(self).done as int]@ {
                            StepView::Call(method, params) => {
                                &&& r matches Todo::Send(bytes) && bytes@ == old(self).sent(
                                    method,
                                    params,
                                )
                                &&& final(self).phase == Phase::Awaiting(old(self).client.next_id)
                            },
                            StepView::Visit(url) => {
                                &&& r matches Todo::Send(bytes) && bytes@ == old(self).sent(
                                    "Page.navigate"@,
                                    navigation(url),
                                )
                                &&& final(self).phase is Loading
                            },
                        }
                    },
                    _ => r is Receive && *final(self) == *old(self),
                },
            },
    {
        if let Some(id) = self.paused.take() {
            let (_, bytes) = self.client.send(
                "Fetch.fulfillRequest",
                fulfill(id.as_str()),
                Some(self.session_id.as_str()),
            );
            return Todo::Send(bytes);
        }
        match self.phase {
            Phase::Ready => {},
            _ => {
                return Todo::Receive;
            },
        }
        if self.done == self.steps.len() {
            return Todo::Finished;
        }
        match &self.steps[self.done] {
            Step::Call { method, params } => {
                let (id, bytes) = self.client.send(
                    method.as_str(),
                    params.copy(),
                    Some(self.session_id.as_str()),
                );
                self.phase = Phase::Awaiting(id);
                Todo::Send(bytes)
            },
            Step::Visit { url } => {
                let (_, bytes) = self.client.send(
                    "Page.navigate",
                    navigate(url.as_str()),
                    Some(self.session_id.as_str()),
                );
                self.phase = Phase::Loading;
                Todo::Send(bytes)
            },
        }
    }

    /// A message arrived.
    pub fn on_message(&mut self, msg: &Json) -> (r: Result<(), ProfileCdpError>)
        requires
            old(self).wf(),
        ensures
            final(self).wf(),
            final(self).steps == old(self).steps,
            final(self).session_id == old(self).session_id,
            final(self).client == old(self).client,
            match old(self).phase {
                Phase::Ready => r is Ok && *final(self) == *old(self),
                Phase::Awaiting(id) => match client::reply_of(msg@, id) {
                    ReplyView::Unrelated => r is Ok && *final(self) == *old(self),
                    ReplyView::Refused(code, text) => {
                        &&& r matches Err(
                            ProfileCdpError::Cdp(CdpError::Protocol { method, code: c, message }),
                        ) && c == code && message@ == text && StepView::Call(
                            method@,
                            old(self).steps@[old(self).done as int]->params@,
                        ) == old(self).steps@[old(self).done as int]@
                        &&& *final(self) == *old(self)
                    },
                    ReplyView::Result(v) => {
                        &&& r is Ok
                        &&& final(self).done == old(self).done + 1
                        &&& final(self).phase is Ready
                        &&& final(self).paused == old(self).paused
                        &&& final(self).results@.len() == old(self).results@.len() + 1
                        &&& final(self).results@.drop_last() == old(self).results@
                        &&& final(self).results@.last()@ == v
                        &&& final(self).answer_to(old(self).done as int) == v
                    },
                },
                Phase::Loading => {
                    &&& r is Ok
                    &&& final(self).results == old(self).results
                    &&& match stub_of(msg@) {
                        StubView::Fulfill(id) => final(self).done == old(self).done && final(
                            self).phase is Loading && text::opt_view(final(self).paused) == Some(
                            id,
                        ),
                        StubView::Loaded => final(self).done == old(self).done + 1 && final(
                            self).phase is Ready && final(self).paused == old(self).paused,
                        StubView::Ignore => *final(self) == *old(self),
                    }
                },
            },
    {
        proof {
            let all = steps_view(self.steps@);
            let n = self.done as int;
            if n < all.len() {
                assert(all.take(n + 1).drop_last() =~= all.take(n));
                assert(all.take(n + 1).last() == all[n]);
                assert(all[n] == self.steps@[n]@);
            }
        }
        match self.phase {
            Phase::Ready => Ok(()),
            Phase::Awaiting(id) => {
                let method = match &self.steps[self.done] {
                    Step::Call { method, .. } => method.as_str(),
                    Step::Visit { .. } => {
                        assert(false);
                        ""
                    },
                };
                match CdpClient::reply(id, method, msg) {
                    None => Ok(()),
                    Some(Err(e)) => Err(ProfileCdpError::Cdp(e)),
                    Some(Ok(v)) => {
                        let ghost before = self.results@;
                        self.results.push(v);
                        assert(self.results@.drop_last() =~= before);
                        assert(self.done < self.steps.len());
                        self.done = self.done + 1;
                        self.phase = Phase::Ready;
                        Ok(())
                    },
                }
            },
            Phase::Loading => {
                let method = match msg.get("method") {
                    Some(v) => v.as_str(),
                    None => None,
                };
                if let Some(m) = method {
                    if text::same(m, "Fetch.requestPaused") {
                        let id = match msg.get("params") {
                            Some(p) => match p.get("requestId") {
                                Some(v) => v.as_str(),
                                None => None,
                            },
                            None => None,
                        };
                        self.paused = Some(
                            match id {
                                Some(id) => id.to_owned(),
                                None => String::new(),
                            },
                        );
                    } else if text::same(m, "Page.loadEventFired") {
                        assert(self.done < self.steps.len());
                        self.done = self.done + 1;
                        self.phase = Phase::Ready;
                    }
                }
                Ok(())
            },
        }
    }
}

/// What an attach to the browser's page target learns.
#[derive(Debug)]
pub enum AttachEvent {
    /// Nothing yet.
    Start,
    /// The result of `Target.getTargets`.
    Targets(Json),
    /// The result of `Target.attachToTarget`.
    Attached(Json),
}

/// What an attach does next.
#[derive(Debug)]
pub enum AttachAction {
    /// Call a browser-level command.
    Call(Step),
    /// The session id that the localStorage scripts route commands to.
    Session(String),
}

/// The first target that is a page.
pub open spec fn page_of(targets: Seq<JsonView>) -> Option<JsonView>
    decreases targets.len(),
{
    if targets.len() == 0 {
        None
    } else if targets[0].at("type"@).chars() == Some("page"@) {
        Some(targets[0])
    } else {
        page_of(targets.skip(1))
    }
}

/// The id of the page target in the result of `Target.getTargets`.
pub open spec fn page_id_of(result: JsonView) -> Option<Seq<char>> {
    match result.at("targetInfos"@) {
        JsonView::Array(targets) => match page_of(targets) {
            Some(t) => t.at("targetId"@).chars(),
            None => None,
        },
        _ => None,
    }
}

/// The parameters that attach to a target in flat mode.
pub open spec fn attachment(target_id: Seq<char>) -> JsonView {
    JsonView::Object(
        seq![("targetId"@, JsonView::Str(target_id)), ("flatten"@, JsonView::Bool(true))],
    )
}

fn page_target_id(result: &Json) -> (r: Option<String>)
    ensures
        text::opt_view(r) == page_id_of(result@),
{
    let targets = match result.get("targetInfos") {
        Some(v) => match v.as_array() {
            Some(items) => items,
            None => {
                return None;
            },
        },
        None => {
            return None;
        },
    };
    let ghost all = json::items_view(targets@);
    let mut i: usize = 0;
    assert(all.skip(0) =~= all);
    while i < targets.len()
        invariant
            i <= targets@.len(),
            all == json::items_view(targets@),
            result@.at("targetInfos"@) == JsonView::Array(all),
            page_of(all.skip(i as int)) == page_of(all),
        decreases targets.len() - i,
    {
        assert(all.skip(i as int)[0] == targets@[i as int]@);
        assert(all.skip(i as int).skip(1) =~= all.skip(i + 1));
        let is_page = match targets[i].get("type") {
            Some(v) => match v.as_str() {
                Some(t) => text::same(t, "page"),
                None => false,
            },
            None => false,
        };
        if is_page {
            return match targets[i].get("targetId") {
                Some(v) => match v.as_str() {
                    Some(id) => Some(id.to_owned()),
                    None => None,
                },
                None => None,
            };
        }
        i += 1;
    }
    None
}

/// Attaches to the browser's page target in flat mode: asks for the targets,
/// attaches to the first page, and ends with its session id.
pub fn attach_page_target(event: &AttachEvent) -> (r: Result<AttachAction, ProfileCdpError>)
    ensures
        match event {
            AttachEvent::Start => r matches Ok(AttachAction::Call(step)) && step@ == StepView::Call(
                "Target.getTargets"@,
                nothing(),
            ),
            AttachEvent::Targets(result) => match page_id_of(result@) {
                Some(id) => r matches Ok(AttachAction::Call(step)) && step@ == StepView::Call(
                    "Target.attachToTarget"@,
                    attachment(id),
                ),
                None => r matches Err(ProfileCdpError::Unexpected(what)) && what@
                    == "no page target to attach"@,
            },
            AttachEvent::Attached(result) => match result@.at("sessionId"@).chars() {
                Some(id) => r matches Ok(AttachAction::Session(sid)) && sid@ == id,
                None => r matches Err(ProfileCdpError::Unexpected(what)) && what@
                    == "attach returned no sessionId"@,
            },
        },
{
    match event {
        AttachEvent::Start => Ok(AttachAction::Call(call_step("Target.getTargets", no_params()))),
        AttachEvent::Targets(result) => match page_target_id(result) {
            None => Err(ProfileCdpError::Unexpected("no page target to attach")),
            Some(id) => {
                let mut members: Vec<Member> = Vec::new();
                members.push(json::member("targetId", Json::string(id.as_str())));
                members.push(json::member("flatten", Json::Bool(true)));
                assert(json::members_view(members@) =~= attachment(id@)->Object_0);
                Ok(AttachAction::Call(call_step("Target.attachToTarget", Json::object(members))))
            },
        },
        AttachEvent::Attached(result) => {
            let id = match result.get("sessionId") {
                Some(v) => v.as_str(),
                None => None,
            };
            match id {
                Some(id) => Ok(AttachAction::Session(id.to_owned())),
                None => Err(ProfileCdpError::Unexpected("attach returned no sessionId")),
            }
        },
    }
}

/// The command that asks for the cookies of the browser's default context.
pub fn ask_cookies() -> (r: Step)
    ensures
        r@ == StepView::Call("Storage.getCookies"@, nothing()),
{
    call_step("Storage.getCookies", no_params())
}

/// The command that asks the browser to flush its storage and exit.
pub fn ask_close() -> (r: Step)
    ensures
        r@ == StepView::Call("Browser.close"@, nothing()),
{
    call_step("Browser.close", no_params())
}

/// The cookie list in the result of `Storage.getCookies`; an empty one if it
/// has none.
pub fn capture_cookies(result: &Json) -> (r: Json)
    ensures
        r@ == (match result@.get("cookies"@) {
            Some(v) => v,
            None => JsonView::Array(Seq::empty()),
        }),
{
    match result.get("cookies") {
        Some(v) => v.copy(),
        None => {
            let none: Vec<Json> = Vec::new();
            let r = Json::array(none);
            assert(json::items_view(none@) =~= Seq::empty());
            r
        },
    }
}

/// What is sent to the browser for cookies, and the report on it.
#[derive(Debug)]
pub struct CookiePlan {
    /// The parameters of `Storage.setCookies`.
    pub params: Vec<CookieParam>,
    /// How many are applied and why any were dropped.
    pub report: CookieApplyReport,
}

/// Sanitizes `cookies` (dropping any that cannot be safely reproduced) for
/// injection into the browser's default context. `now_secs` is the current
/// time in seconds since epoch, used for the expiry check.
pub fn apply_cookies(cookies: &[Cookie], now_secs: Scalar) -> (r: CookiePlan)
    requires
        cookies@.len() <= u32::MAX,
    ensures
        r.params@ == cookie::params_of(cookies@, now_secs),
        r.report.applied == r.params@.len(),
        forall|reason: DropReason| #[trigger]
            r.report.dropped.of(reason) == cookie::drops_of(cookies@, now_secs, reason),
        r.report.applied + r.report.dropped.sum() == cookies@.len(),
{
    let (params, dropped) = cookie::sanitize(cookies, now_secs);
    let applied: usize = params.len();
    CookiePlan { params, report: CookieApplyReport { applied, dropped } }
}

/// The command that sets these cookies, unless there are none: with nothing to
/// set, nothing is sent. `expiries` are the texts of their expiry times.
pub open spec fn set_cookies_of(params: Seq<CookieParam>, expiries: Seq<Seq<char>>) -> Option<
    StepView,
> {
    if params.len() == 0 {
        None
    } else {
        Some(
            StepView::Call(
                "Storage.setCookies"@,
                JsonView::Object(
                    seq![
                        (
                            "cookies"@,
                            JsonView::Array(
                                Seq::new(
                                    params.len(),
                                    |i: int|
                                        JsonView::Object(
                                            cookie::param_members(params[i], expiries[i]),
                                        ),
                                ),
                            ),
                        ),
                    ],
                ),
            ),
        )
    }
}

/// The command that sets the cookies of a plan, unless there are none. The
/// texts of their expiry times are given one for each; that of a session cookie
/// is not looked at.
pub fn set_cookies(plan: &CookiePlan, expiries: &Vec<String>) -> (r: Option<Step>)
    requires
        expiries@.len() == plan.params@.len(),
    ensures
        match set_cookies_of(plan.params@, text::views(expiries@)) {
            Some(step) => r matches Some(s) && s@ == step,
            None => r is None,
        },
{
    if plan.params.len() == 0 {
        return None;
    }
    let mut items: Vec<Json> = Vec::new();
    let ghost texts = text::views(expiries@);
    let mut i: usize = 0;
    while i < plan.params.len()
        invariant
            i <= plan.params@.len(),
            expiries@.len() == plan.params@.len(),
            texts == text::views(expiries@),
            items@.len() == i,
            forall|k: int|
                0 <= k < i ==> (#[trigger] items@[k])@ == JsonView::Object(
                    cookie::param_members(plan.params@[k], texts[k]),
                ),
        decreases plan.params.len() - i,
    {
        items.push(cookie::param_json(&plan.params[i], expiries[i].as_str()));
        i += 1;
    }
    let ghost wanted = Seq::new(
        plan.params@.len(),
        |k: int| JsonView::Object(cookie::param_members(plan.params@[k], texts[k])),
    );
    assert(json::items_view(items@) =~= wanted);
    let mut members: Vec<Member> = Vec::new();
    members.push(json::member("cookies", Json::array(items)));
    assert(json::members_view(members@) =~= seq![("cookies"@, JsonView::Array(wanted))]);
    Some(call_step("Storage.setCookies", Json::object(members)))
}

/// Every request made while a page loads behind the stub is answered with the
/// same empty document, whatever it asks for: only its id matters.
pub proof fn stub_answers_are_alike(a: JsonView, b: JsonView)
    requires
        a.at("method"@) == b.at("method"@),
        a.at("params"@).at("requestId"@) == b.at("params"@).at("requestId"@),
    ensures
        stub_of(a) == stub_of(b),
{
}

/// A script over origins ends by removing interception and clearing the
/// synthetic page, and it visits every origin before.
pub proof fn scripts_clean_up(origins: Seq<Seq<char>>, scripts: spec_fn(int) -> Seq<char>, k: int)
    requires
        0 <= k < origins.len(),
    ensures
        ({
            let s = script_of(origins, scripts);
            &&& s.len() == 4 + 2 * origins.len()
            &&& s[s.len() - 2] == StepView::Call("Fetch.disable"@, nothing())
            &&& s[s.len() - 1] == StepView::Visit("about:blank"@)
            &&& s[2 + 2 * k] == StepView::Visit(origins[k] + "/"@)
            &&& s[3 + 2 * k] == StepView::Call("Runtime.evaluate"@, evaluation(scripts(k)))
        }),
{
    origin_steps_at(origins, scripts, origins.len(), k);
}

/// What a capture script reads is paired with its origin: the step at index
/// `3 + 2 * k` evaluates the capture at the `k`th origin, where the page was
/// loaded just before, and its answer is what [`captured_values`] looks at for
/// this origin, whatever the other origins answered.
pub proof fn captures_are_paired_with_their_origins(
    script: Script,
    origins: Seq<Seq<char>>,
    k: int,
)
    requires
        script.wf(),
        steps_view(script.steps@) == script_of(origins, |i: int| capturing()),
        0 <= k < origins.len(),
        script.done > 3 + 2 * k,
    ensures
        script.steps@[2 + 2 * k]@ == StepView::Visit(origins[k] + "/"@),
        script.steps@[3 + 2 * k]@ == StepView::Call("Runtime.evaluate"@, evaluation(capturing())),
        2 + k < script.results@.len(),
        script.answer_to(3 + 2 * k) == script.results@[2 + k]@,
{
    let scripts = |i: int| capturing();
    let all = script_of(origins, scripts);
    scripts_clean_up(origins, scripts, k);
    assert(all[2 + 2 * k] == script.steps@[2 + 2 * k]@);
    assert(all[3 + 2 * k] == script.steps@[3 + 2 * k]@);
    calls_before(origins, scripts, k);
    let at = all.take(3 + 2 * k + 1);
    assert(at.drop_last() =~= all.take(3 + 2 * k));
    calls_grow(all, 3 + 2 * k + 1, script.done as int);
}

proof fn calls_before(origins: Seq<Seq<char>>, scripts: spec_fn(int) -> Seq<char>, k: int)
    requires
        0 <= k < origins.len(),
    ensures
        calls_in(script_of(origins, scripts).take(3 + 2 * k)) == 2 + k,
    decreases k,
{
    let all = script_of(origins, scripts);
    scripts_clean_up(origins, scripts, k);
    let visit = all.take(3 + 2 * k);
    assert(visit.drop_last() =~= all.take(2 + 2 * k));
    assert(visit.last() == all[2 + 2 * k]);
    assert(calls_in(visit) == calls_in(all.take(2 + 2 * k)));
    if k == 0 {
        let two = all.take(2);
        assert(two =~= enable_steps());
        let one = enable_steps().drop_last();
        assert(one =~= seq![enable_steps()[0]]);
        assert(one.drop_last() =~= Seq::empty());
        assert(calls_in(one.drop_last()) == 0);
        assert(calls_in(one) == 1);
        assert(enable_steps().last() is Call);
        assert(calls_in(enable_steps()) == 2);
    } else {
        scripts_clean_up(origins, scripts, k - 1);
        calls_before(origins, scripts, k - 1);
        let call = all.take(2 + 2 * k);
        assert(call.drop_last() =~= all.take(3 + 2 * (k - 1)));
        assert(call.last() == all[3 + 2 * (k - 1)]);
        assert(calls_in(call) == calls_in(call.drop_last()) + 1);
    }
}

proof fn calls_grow(steps: Seq<StepView>, a: int, b: int)
    requires
        0 <= a <= b <= steps.len(),
    ensures
        calls_in(steps.take(a)) <= calls_in(steps.take(b)),
    decreases b - a,
{
    if a < b {
        assert(steps.take(b).drop_last() =~= steps.take(b - 1));
        calls_grow(steps, a, b - 1);
    }
}

proof fn origin_steps_at(
    origins: Seq<Seq<char>>,
    scripts: spec_fn(int) -> Seq<char>,
    n: nat,
    k: int,
)
    requires
        0 <= k < n,
    ensures
        origin_steps(origins, scripts, n).len() == 2 * n,
        origin_steps(origins, scripts, n)[2 * k] == StepView::Visit(origins[k] + "/"@),
        origin_steps(origins, scripts, n)[2 * k + 1] == StepView::Call(
            "Runtime.evaluate"@,
            evaluation(scripts(k)),
        ),
    decreases n,
{
    if k < n - 1 {
        origin_steps_at(origins, scripts, (n - 1) as nat, k);
    } else if n > 1 {
        origin_steps_at(origins, scripts, (n - 1) as nat, 0);
    } else {
        assert(origin_steps(origins, scripts, 0).len() == 0);
    }
}

/// Restoring replaces what is stored: the script clears the store, then sets
/// for each entry of its data the key that is the entry's name to the value
/// that is the entry's value. Its data is the list of all entries, in order,
/// and it is the text between these two pieces of code.
pub proof fn restoring_sets_each_name_to_its_value(entries: Seq<(Seq<char>, Seq<char>)>)
    ensures
        restoring(entries) == "(()=>{try{localStorage.clear();for(const e of "@ + stored_text(
            entries,
        )
            + "){localStorage.setItem(e.name,e.value);}return true;}catch(err){return String(err);}})()"@,
{
    let a = entries.map_values(|e: (Seq<char>, Seq<char>)| entry_json(e));
    let b = Seq::new(
        entries.len(),
        |i: int|
            JsonView::Object(
                seq![
                    ("name"@, JsonView::Str(entries[i].0)),
                    ("value"@, JsonView::Str(entries[i].1)),
                ],
            ),
    );
    assert forall|i: int| 0 <= i < entries.len() implies a[i] == b[i] by {
        let x = a[i]->Object_0;
        let y = b[i]->Object_0;
        assert(x =~= y);
    }
    assert(a =~= b);
}

/// Capturing lists what restoring sets: for each key that is stored, the key
/// under `name` and what is stored under it under `value`.
pub proof fn capturing_lists_each_key_with_its_value()
    ensures
        capturing()
            == "(()=>{try{return Object.keys(localStorage).map(k=>({name:k,value:localStorage.getItem(k)}));}catch(e){return [];}})()"@,
{
}

/// A script over origins begins by taking over every request of the page, and
/// only then visits an origin; so no visit touches the network.
pub proof fn scripts_intercept_first(origins: Seq<Seq<char>>, scripts: spec_fn(int) -> Seq<char>)
    requires
        origins.len() > 0,
    ensures
        ({
            let s = script_of(origins, scripts);
            &&& s[0] == StepView::Call("Page.enable"@, JsonView::Object(Seq::empty()))
            &&& s[1] == StepView::Call(
                "Fetch.enable"@,
                JsonView::Object(
                    seq![
                        (
                            "patterns"@,
                            JsonView::Array(
                                seq![
                                    JsonView::Object(seq![("urlPattern"@, JsonView::Str("*"@))]),
                                ],
                            ),
                        ),
                    ],
                ),
            )
            &&& s[s.len() - 2] == StepView::Call("Fetch.disable"@, JsonView::Object(Seq::empty()))
            &&& s[s.len() - 1] == StepView::Visit("about:blank"@)
        }),
{
    scripts_clean_up(origins, scripts, 0);
}

/// At each origin the page is loaded at the origin's root, and then its script
/// is evaluated, with its value returned.
pub proof fn scripts_run_at_their_origin(
    origins: Seq<Seq<char>>,
    scripts: spec_fn(int) -> Seq<char>,
    k: int,
)
    requires
        0 <= k < origins.len(),
    ensures
        script_of(origins, scripts).len() == 4 + 2 * origins.len(),
        script_of(origins, scripts)[2 + 2 * k] == StepView::Visit(origins[k] + "/"@),
        script_of(origins, scripts)[3 + 2 * k] == StepView::Call(
            "Runtime.evaluate"@,
            JsonView::Object(
                seq![
                    ("expression"@, JsonView::Str(scripts(k))),
                    ("returnByValue"@, JsonView::Bool(true)),
                ],
            ),
        ),
{
    scripts_clean_up(origins, scripts, k);
}

/// The restore of a list of states visits each state's origin with the script
/// for its own entries.
pub proof fn each_origin_gets_its_own_entries(origins: Seq<OriginState>, k: int)
    requires
        0 <= k < origins.len(),
    ensures
        script_of(origins_view(origins), restore_scripts(origins))[2 + 2 * k] == StepView::Visit(
            origins[k].origin@ + "/"@,
        ),
        restore_scripts(origins)(k) == "(()=>{try{localStorage.clear();for(const e of "@
            + stored_text(
            Seq::new(
                origins[k].local_storage@.len(),
                |i: int|
                    (origins[k].local_storage@[i].name@, origins[k].local_storage@[i].value@),
            ),
        )
            + "){localStorage.setItem(e.name,e.value);}return true;}catch(err){return String(err);}})()"@,
        script_of(Seq::empty(), restore_scripts(origins)).len() == 0,
{
    scripts_clean_up(origins_view(origins), restore_scripts(origins), k);
    let mine = entries_view(origins[k].local_storage@);
    restoring_sets_each_name_to_its_value(mine);
    assert(mine =~= Seq::new(
        origins[k].local_storage@.len(),
        |i: int| (origins[k].local_storage@[i].name@, origins[k].local_storage@[i].value@),
    ));
}

/// Nothing that was read at an origin is lost, and nothing is told of an
/// origin where nothing was read: the states are the origins with entries, in
/// order, each with all that was read there.
pub proof fn captured_states_are_what_was_read(
    origins: Seq<Seq<char>>,
    found: Seq<Seq<(Seq<char>, Seq<char>)>>,
)
    requires
        origins.len() == found.len(),
    ensures
        forall|k: int|
            0 <= k < origins.len() && (#[trigger] found[k]).len() > 0 ==> captured_of(
                origins,
                found,
            ).contains((origins[k], found[k])),
        forall|j: int|
            0 <= j < captured_of(origins, found).len() ==> (#[trigger] captured_of(
                origins,
                found,
            )[j]).1.len() > 0,
        captured_of(origins, found).len() == found.filter(
            |f: Seq<(Seq<char>, Seq<char>)>| f.len() > 0,
        ).len(),
    decreases origins.len(),
{
    let full = |f: Seq<(Seq<char>, Seq<char>)>| f.len() > 0;
    let all = captured_of(origins, found);
    if origins.len() > 0 {
        let o = origins.skip(1);
        let f = found.skip(1);
        captured_states_are_what_was_read(o, f);
        let rest = captured_of(o, f);
        assert forall|k: int| 0 <= k < origins.len() && (#[trigger] found[k]).len() > 0 implies
            all.contains((origins[k], found[k])) by {
            if k > 0 {
                assert(f[k - 1] == found[k] && o[k - 1] == origins[k]);
                let j = choose|j: int| 0 <= j < rest.len() && rest[j] == (origins[k], found[k]);
                if found[0].len() == 0 {
                    assert(all[j] == rest[j]);
                } else {
                    assert(all[j + 1] == rest[j]);
                }
            } else {
                assert(all[0] == (origins[0], found[0]));
            }
        }
        assert forall|j: int| 0 <= j < all.len() implies (#[trigger] all[j]).1.len() > 0 by {
            if found[0].len() == 0 {
                assert(all[j] == rest[j]);
            } else if j > 0 {
                assert(all[j] == rest[j - 1]);
            }
        }
        assert(seq![found[0]] + f =~= found);
        Seq::filter_distributes_over_add(seq![found[0]], f, full);
        assert(seq![found[0]].filter(full).len() == (if full(found[0]) {
            1int
        } else {
            0int
        })) by {
            reveal(Seq::filter);
            assert(seq![found[0]].drop_last() =~= Seq::empty());
            assert(seq![found[0]].drop_last().filter(full).len() == 0);
        }
    } else {
        assert(found =~= Seq::empty());
        reveal(Seq::filter);
    }
}

/// A page that loads behind the stub is answered request by request with an
/// empty page, and has loaded when it says so; nothing else matters to it.
pub proof fn stub_answers_requests(msg: JsonView, id: Seq<char>)
    ensures
        msg.at("method"@) == JsonView::Str("Page.loadEventFired"@) ==> stub_of(msg) is Loaded,
        msg.at("method"@) == JsonView::Str("Fetch.requestPaused"@) && msg.at("params"@).at(
            "requestId"@,
        ) == JsonView::Str(id) ==> stub_of(msg) == StubView::Fulfill(id),
        stub_of(msg) is Loaded ==> msg.at("method"@) == JsonView::Str("Page.loadEventFired"@),
        stub_of(msg) is Fulfill ==> msg.at("method"@) == JsonView::Str("Fetch.requestPaused"@),
        fulfillment(id) == JsonView::Object(
            seq![
                ("requestId"@, JsonView::Str(id)),
                ("responseCode"@, JsonView::UInt(200)),
                (
                    "responseHeaders"@,
                    JsonView::Array(
                        seq![
                            JsonView::Object(
                                seq![
                                    ("name"@, JsonView::Str("Content-Type"@)),
                                    ("value"@, JsonView::Str("text/html"@)),
                                ],
                            ),
                        ],
                    ),
                ),
            ],
        ),
        navigation(id) == JsonView::Object(seq![("url"@, JsonView::Str(id))]),
{
    reveal_strlit("Page.loadEventFired");
    reveal_strlit("Fetch.requestPaused");
    assert("Page.loadEventFired"@[0] == 'P' && "Fetch.requestPaused"@[0] == 'F');
}

/// The page target is the first target whose type is `page`, by its id.
pub proof fn page_target_is_the_first_page(targets: Seq<JsonView>, k: int)
    requires
        0 <= k < targets.len(),
        targets[k].at("type"@) == JsonView::Str("page"@),
        forall|i: int|
            0 <= i < k ==> (#[trigger] targets[i]).at("type"@) != JsonView::Str("page"@),
    ensures
        page_of(targets) == Some(targets[k]),
        attachment(targets[k].at("targetId"@)->Str_0) == JsonView::Object(
            seq![
                ("targetId"@, JsonView::Str(targets[k].at("targetId"@)->Str_0)),
                ("flatten"@, JsonView::Bool(true)),
            ],
        ),
    decreases k,
{
    if k > 0 {
        let rest = targets.skip(1);
        assert(targets[0].at("type"@) != JsonView::Str("page"@));
        assert forall|i: int| 0 <= i < k - 1 implies (#[trigger] rest[i]).at("type"@)
            != JsonView::Str("page"@) by {
            assert(rest[i] == targets[i + 1]);
        }
        page_target_is_the_first_page(rest, k - 1);
    }
}

/// Where no target is a page there is none to attach to.
pub proof fn without_a_page_there_is_no_target(targets: Seq<JsonView>)
    requires
        forall|i: int|
            0 <= i < targets.len() ==> (#[trigger] targets[i]).at("type"@) != JsonView::Str(
                "page"@,
            ),
    ensures
        page_of(targets) is None,
    decreases targets.len(),
{
    if targets.len() > 0 {
        let rest = targets.skip(1);
        assert(targets[0].at("type"@) != JsonView::Str("page"@));
        assert forall|i: int| 0 <= i < rest.len() implies (#[trigger] rest[i]).at("type"@)
            != JsonView::Str("page"@) by {
            assert(rest[i] == targets[i + 1]);
        }
        without_a_page_there_is_no_target(rest);
    }
}

/// Cookies are set with one command, which names each of them; without any,
/// nothing is sent.
pub proof fn cookies_are_set_with_one_command(params: Seq<CookieParam>, expiries: Seq<Seq<char>>)
    requires
        params.len() == expiries.len(),
    ensures
        params.len() == 0 <==> set_cookies_of(params, expiries) is None,
        set_cookies_of(params, expiries) matches Some(step) ==> step matches StepView::Call(
            method,
            body,
        ) && method == "Storage.setCookies"@ && body is Object && body->Object_0.len() == 1
            && body->Object_0[0].0 == "cookies"@ && (body->Object_0[0].1 matches JsonView::Array(
            items,
        ) && items.len() == params.len() && forall|i: int|
            0 <= i < params.len() ==> #[trigger] items[i] == JsonView::Object(
                cookie::param_members(params[i], expiries[i]),
            )),
{
}

/// What an evaluation returned is the value of its result; an answer without
/// one has none.
pub proof fn evaluation_value_is_the_results(inner: JsonView, result: JsonView)
    requires
        result.get("result"@) == Some(inner),
    ensures
        value_of(result) == inner.get("value"@),
{
}

/// The results of a script that is done are those of its calls, one for each,
/// in order: a visit has none.
pub proof fn results_are_those_of_the_calls(a: Seq<StepView>, step: StepView)
    ensures
        calls_in(Seq::empty()) == 0,
        step is Call ==> calls_in(a.push(step)) == calls_in(a) + 1,
        step is Visit ==> calls_in(a.push(step)) == calls_in(a),
{
    assert(a.push(step).drop_last() =~= a);
}

/// What is attached to is the `targetId` of the first page among the
/// `targetInfos`; a page without an id is none.
pub proof fn page_is_named_by_its_target_id(result: JsonView, targets: Seq<JsonView>, k: int)
    requires
        result.at("targetInfos"@) == JsonView::Array(targets),
        0 <= k < targets.len(),
        targets[k].at("type"@) == JsonView::Str("page"@),
        forall|i: int|
            0 <= i < k ==> (#[trigger] targets[i]).at("type"@) != JsonView::Str("page"@),
    ensures
        targets[k].at("targetId"@) matches JsonView::Str(id) ==> page_id_of(result) == Some(id),
        !(targets[k].at("targetId"@) is Str) ==> page_id_of(result) is None,
{
    page_target_is_the_first_page(targets, k);
}

} // verus!
