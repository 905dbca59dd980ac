//! What a browser is started with, asked, told and heard.

use crate::chrome::client;
use crate::chrome::client::ReplyView;
use crate::chrome::find;
use crate::chrome::flags;
use crate::chrome::kill;
use crate::chrome::launch;
use crate::chrome::launch::{LaunchCause, LaunchError};
use crate::chrome::pipe;
use crate::chrome::pipe::{Next, PipeError, ReadEvent, Received};
use crate::json::JsonView;
use crate::platform::Platform;
use crate::text;
use vstd::prelude::*;

verus! {

/// Every browser runs headless, without first-run surfaces, phone-home
/// services, throttling or prompts.
pub proof fn browsers_are_launched_for_a_fleet()
    ensures
        ({
            let d = flags::default_list();
            &&& d.len() == 30
            &&& d.contains("--headless"@)
            &&& d.contains("--allow-pre-commit-input"@)
            &&& d.contains("--disable-background-networking"@)
            &&& d.contains("--disable-background-timer-throttling"@)
            &&& d.contains("--disable-backgrounding-occluded-windows"@)
            &&& d.contains("--disable-breakpad"@)
            &&& d.contains("--disable-crash-reporter"@)
            &&& d.contains("--disable-client-side-phishing-detection"@)
            &&& d.contains("--disable-component-extensions-with-background-pages"@)
            &&& d.contains("--disable-component-update"@)
            &&& d.contains("--disable-default-apps"@)
            &&& d.contains("--disable-dev-shm-usage"@)
            &&& d.contains("--disable-extensions"@)
            &&& d.contains("--disable-hang-monitor"@)
            &&& d.contains("--disable-ipc-flooding-protection"@)
            &&& d.contains("--disable-popup-blocking"@)
            &&& d.contains("--disable-prompt-on-repost"@)
            &&& d.contains("--disable-session-crashed-bubble"@)
            &&& d.contains("--hide-crash-restore-bubble"@)
            &&& d.contains("--disable-sync"@)
            &&& d.contains("--disable-features=Translate,MediaRouter,DialMediaRouteProvider,OptimizationHints,AcceptCHFrame,DestroyProfileOnBrowserClose"@)
            &&& d.contains("--export-tagged-pdf"@)
            &&& d.contains("--force-color-profile=srgb"@)
            &&& d.contains("--metrics-recording-only"@)
            &&& d.contains("--mute-audio"@)
            &&& d.contains("--no-default-browser-check"@)
            &&& d.contains("--no-first-run"@)
            &&& d.contains("--password-store=basic"@)
            &&& d.contains("--use-mock-keychain"@)
            &&& d.contains("--window-size=1280,720"@)
        }),
{
    let d = flags::default_list();
    assert(d[0] == "--headless"@);
    assert(d[1] == "--allow-pre-commit-input"@);
    assert(d[2] == "--disable-background-networking"@);
    assert(d[3] == "--disable-background-timer-throttling"@);
    assert(d[4] == "--disable-backgrounding-occluded-windows"@);
    assert(d[5] == "--disable-breakpad"@);
    assert(d[6] == "--disable-crash-reporter"@);
    assert(d[7] == "--disable-client-side-phishing-detection"@);
    assert(d[8] == "--disable-component-extensions-with-background-pages"@);
    assert(d[9] == "--disable-component-update"@);
    assert(d[10] == "--disable-default-apps"@);
    assert(d[11] == "--disable-dev-shm-usage"@);
    assert(d[12] == "--disable-extensions"@);
    assert(d[13] == "--disable-hang-monitor"@);
    assert(d[14] == "--disable-ipc-flooding-protection"@);
    assert(d[15] == "--disable-popup-blocking"@);
    assert(d[16] == "--disable-prompt-on-repost"@);
    assert(d[17] == "--disable-session-crashed-bubble"@);
    assert(d[18] == "--hide-crash-restore-bubble"@);
    assert(d[19] == "--disable-sync"@);
    assert(d[20] == "--disable-features=Translate,MediaRouter,DialMediaRouteProvider,OptimizationHints,AcceptCHFrame,DestroyProfileOnBrowserClose"@);
    assert(d[21] == "--export-tagged-pdf"@);
    assert(d[22] == "--force-color-profile=srgb"@);
    assert(d[23] == "--metrics-recording-only"@);
    assert(d[24] == "--mute-audio"@);
    assert(d[25] == "--no-default-browser-check"@);
    assert(d[26] == "--no-first-run"@);
    assert(d[27] == "--password-store=basic"@);
    assert(d[28] == "--use-mock-keychain"@);
    assert(d[29] == "--window-size=1280,720"@);
}

/// Every browser talks over the pipe, uses its own profile directory, and opens
/// a blank page; its sandbox is turned off exactly if that is asked for.
pub proof fn browsers_get_their_own_profile(
    user_data_dir: Seq<char>,
    no_sandbox: bool,
    extra: Seq<Seq<char>>,
)
    ensures
        ({
            let f = flags::flags_of(user_data_dir, no_sandbox, extra);
            let n = flags::default_list().len() as int;
            &&& forall|i: int| 0 <= i < n ==> #[trigger] f[i] == flags::default_list()[i]
            &&& f[n] == "--remote-debugging-pipe"@
            &&& f[n + 1] == "--user-data-dir="@ + user_data_dir
            &&& no_sandbox ==> f[n + 2] == "--no-sandbox"@ && f.len() == n + 4 + extra.len()
            &&& !no_sandbox ==> f.len() == n + 3 + extra.len()
            &&& f.last() == "about:blank"@
            &&& forall|i: int|
                0 <= i < extra.len() ==> f[f.len() - 1 - extra.len() + i] == #[trigger] extra[i]
        }),
{
}

/// The browser that is used is the first one, in the order of the locations,
/// that is executable; if none is, there is none.
pub proof fn first_executable_location_is_used(
    paths: Seq<Seq<char>>,
    executable: Seq<Seq<char>>,
    k: int,
)
    requires
        0 <= k <= paths.len(),
        forall|i: int| 0 <= i < k ==> !executable.contains(#[trigger] paths[i]),
        k < paths.len() ==> executable.contains(paths[k]),
    ensures
        find::first_executable(paths, executable) == (if k < paths.len() {
            Some(paths[k])
        } else {
            None
        }),
    decreases k,
{
    if k > 0 {
        let rest = paths.skip(1);
        assert(!executable.contains(paths[0]));
        assert forall|i: int| 0 <= i < k - 1 implies !executable.contains(#[trigger] rest[i]) by {
            assert(rest[i] == paths[i + 1]);
        }
        if k < paths.len() {
            assert(rest[k - 1] == paths[k]);
        }
        first_executable_location_is_used(rest, executable, k - 1);
    }
}

/// Where a browser is looked for: at the configured place alone, else where the
/// platform has them.
pub proof fn browsers_are_looked_for_where_they_are(path: Seq<char>)
    ensures
        find::probed(Platform::Linux, Some(path)) == seq![path],
        find::probed(Platform::MacOs, Some(path)) == seq![path],
        find::probed(Platform::Linux, None) == seq![
            "/usr/bin/chromium"@,
            "/usr/bin/chromium-browser"@,
            "/usr/bin/google-chrome-stable"@,
            "/usr/bin/google-chrome"@,
            "/usr/local/bin/chromium"@,
            "/usr/local/bin/google-chrome"@,
            "/snap/bin/chromium"@,
        ],
        find::probed(Platform::MacOs, None) == seq![
            "/Applications/Google Chrome.app/Contents/MacOS/Google Chrome"@,
            "/Applications/Chromium.app/Contents/MacOS/Chromium"@,
            "/Applications/Google Chrome Beta.app/Contents/MacOS/Google Chrome Beta"@,
            "/Applications/Google Chrome Canary.app/Contents/MacOS/Google Chrome Canary"@,
        ],
{
}

/// A frame is what stands in front of the first zero, if that is not too much;
/// without a zero nothing is cut off, and too much of that is refused.
pub proof fn frames_end_at_the_first_zero(s: Seq<u8>, n: int, max_frame: nat)
    requires
        0 <= n <= s.len(),
        forall|i: int| 0 <= i < n ==> #[trigger] s[i] != 0,
        n < s.len() ==> s[n] == 0,
    ensures
        n < s.len() && n <= max_frame ==> pipe::next_of(s, max_frame) == Next::Frame(
            s.take(n),
            s.skip(n + 1),
        ),
        n > max_frame ==> pipe::next_of(s, max_frame) is TooLarge,
        n == s.len() && n <= max_frame ==> pipe::next_of(s, max_frame) is Incomplete,
{
    pipe::frame_len_is(s, n);
}

/// What a reader makes of an event: a failed read is that failure, a read of
/// nothing the end of the stream; otherwise the buffer is looked at, and a
/// frame in it is given out without what follows.
pub proof fn reads_are_told_apart(buf: Seq<u8>, e: PipeError, count: usize, max_frame: nat)
    ensures
        pipe::received(buf, ReadEvent::Failed(e), max_frame) == (Some(Received::Failed(e)), buf),
        pipe::received(buf, ReadEvent::Read(0), max_frame) == (Some(Received::Closed), buf),
        count > 0 ==> pipe::received(buf, ReadEvent::Read(count), max_frame) == pipe::received(
            buf,
            ReadEvent::Asked,
            max_frame,
        ),
        match pipe::next_of(buf, max_frame) {
            Next::Frame(frame, rest) => pipe::received(buf, ReadEvent::Asked, max_frame) == (
                Some(Received::Frame(frame)),
                rest,
            ),
            Next::TooLarge => pipe::received(buf, ReadEvent::Asked, max_frame) == (
                Some(Received::TooLarge),
                buf,
            ),
            Next::Incomplete => pipe::received(buf, ReadEvent::Asked, max_frame) == (
                None::<Received>,
                buf,
            ),
        },
{
}

/// A reply belongs to the command whose id it carries; it is the error if it
/// has one, with its code and text, and the result otherwise.
pub proof fn replies_carry_result_or_error(msg: JsonView, id: u64, err: JsonView)
    requires
        msg.get("id"@) == Some(JsonView::UInt(id)),
    ensures
        msg.get("error"@) is None ==> client::reply_of(msg, id) == ReplyView::Result(
            match msg.get("result"@) {
                Some(v) => v,
                None => JsonView::Null,
            },
        ),
        msg.get("error"@) == Some(err) ==> client::reply_of(msg, id) is Refused,
        msg.get("error"@) == Some(err) ==> (err.get("message"@) matches Some(JsonView::Str(t))
            ==> (client::reply_of(msg, id) matches ReplyView::Refused(_, m) && m == t)),
        msg.get("error"@) == Some(err) ==> (err.get("code"@) matches Some(JsonView::Int(c)) ==> (
        client::reply_of(msg, id) matches ReplyView::Refused(n, _) && n == c)),
        msg.get("error"@) == Some(err) && err.get("code"@) is None ==> (client::reply_of(
            msg,
            id,
        ) matches ReplyView::Refused(n, _) && n == 0),
{
}

/// A command carries its id, method and parameters, and the target's session
/// exactly if it goes to a target; on the pipe a zero follows it.
pub proof fn commands_carry_what_is_asked(
    id: u64,
    method: Seq<char>,
    params: JsonView,
    session: Seq<char>,
)
    ensures
        client::envelope_of(id, method, params, None) == JsonView::Object(
            seq![
                ("id"@, JsonView::UInt(id)),
                ("method"@, JsonView::Str(method)),
                ("params"@, params),
            ],
        ),
        ({
            let m = client::envelope_of(id, method, params, Some(session))->Object_0;
            &&& m.len() == 4
            &&& m.take(3) == client::envelope_of(id, method, params, None)->Object_0
            &&& m[3] == ("sessionId"@, JsonView::Str(session))
        }),
        client::wire_of(params).len() > 0 && client::wire_of(params).last() == 0,
{
    let m = client::envelope_of(id, method, params, Some(session))->Object_0;
    assert(m.take(3) =~= client::envelope_of(id, method, params, None)->Object_0);
}

/// The browser is asked for its version to see whether it is ready, and asked
/// to close to end it.
pub proof fn probe_and_close_are_commands()
    ensures
        launch::probe_command() == JsonView::Object(
            seq![
                ("id"@, JsonView::UInt(1)),
                ("method"@, JsonView::Str("Browser.getVersion"@)),
            ],
        ),
        kill::close_command() == JsonView::Object(
            seq![("id"@, JsonView::UInt(0)), ("method"@, JsonView::Str("Browser.close"@))],
        ),
        kill::PROTOCOL_CLOSE_BUDGET_MS == 2_000 && kill::REAP_BUDGET_MS == 5_000
            && launch::ABORT_REAP_BUDGET_MS == 5_000 && launch::STDERR_MAX_LINES == 200
            && launch::READY_PROBE_ID == 1,
        crate::bridge::CLOSE_BROWSER_GONE == 1011 && crate::bridge::CLOSE_IDLE_TIMEOUT == 1013,
{
}

/// The browser is ready when it answers the probe, and not before: a message
/// with another id, or without one, is no answer.
pub proof fn only_the_answer_makes_a_browser_ready(msg: JsonView)
    ensures
        msg.get("id"@) == Some(JsonView::UInt(1)) ==> launch::is_answer(msg),
        launch::is_answer(msg) ==> msg.get("id"@) == Some(JsonView::UInt(1)),
{
}

/// The version facts are those in the answer's result, as they stand there.
pub proof fn version_facts_are_read(answer: JsonView, result: JsonView, name: Seq<char>, s: Seq<char>)
    requires
        answer.get("result"@) == Some(result),
    ensures
        result.get(name) == Some(JsonView::Str(s)) ==> launch::fact_of(answer, name) == s,
        result.get(name) is None ==> launch::fact_of(answer, name).len() == 0,
{
}

/// A child's pid is its id, if it has one that a signed pid can be.
pub proof fn pid_is_the_childs_id(id: Option<u32>)
    ensures
        launch::pid_of(id) matches Some(pid) ==> pid >= 0 && id == Some(pid as u32),
        id matches Some(n) ==> (n <= 0x7fff_ffff ==> launch::pid_of(id) == Some(n as i32)),
        id matches Some(n) ==> (n > 0x7fff_ffff ==> launch::pid_of(id) is None),
        id is None ==> launch::pid_of(id) is None,
{
}

/// A launch that was aborted reports its cause, and a browser that did not
/// become ready is reported with what it last said.
pub proof fn aborted_launch_reports_its_cause(
    cause: LaunchCause,
    timeout_ms: u64,
    tail: Seq<Seq<char>>,
    e: LaunchError,
)
    requires
        launch::cause_matches(cause, timeout_ms, tail, e),
    ensures
        cause is NoPid <==> e is PidUnavailable,
        cause matches LaunchCause::Wire(s) ==> e == LaunchError::Wire(s),
        cause matches LaunchCause::Exited(s) ==> (e matches LaunchError::ChromeExited {
            status,
            stderr_tail,
        } && status == s && stderr_tail@ == text::joined(tail, "\n"@)),
        cause matches LaunchCause::Pipe(p) ==> (e matches LaunchError::StartupPipe {
            source,
            stderr_tail,
        } && source == p && stderr_tail@ == text::joined(tail, "\n"@)),
        cause is TimedOut ==> (e matches LaunchError::ReadyTimeout { timeout_ms: t, stderr_tail }
            && t == timeout_ms && stderr_tail@ == text::joined(tail, "\n"@)),
{
}

/// What is kept of the browser's last words is the last two hundred lines, in
/// order, each as it was.
pub proof fn last_words_are_the_last_lines(all: Seq<Seq<char>>, i: int)
    requires
        0 <= i < launch::last_lines(all).len(),
    ensures
        launch::last_lines(all).len() == (if all.len() <= 200 {
            all.len() as int
        } else {
            200
        }),
        launch::last_lines(all)[i] == all[all.len() - launch::last_lines(all).len() + i],
{
}

/// Help is offered exactly if a browser that did not become ready said that it
/// has no usable sandbox.
pub proof fn help_is_offered_for_a_blocked_sandbox(e: LaunchError, tail: String)
    ensures
        e.tail() == Some(tail@) ==> (e.hint() is Some <==> text::occurs(
            tail@,
            "No usable sandbox"@,
        )),
        e.tail() is None ==> e.hint() is None,
        e matches LaunchError::ReadyTimeout { timeout_ms, stderr_tail } ==> e.tail() == Some(
            stderr_tail@,
        ),
        e matches LaunchError::ChromeExited { status, stderr_tail } ==> e.tail() == Some(
            stderr_tail@,
        ),
        e matches LaunchError::StartupPipe { source, stderr_tail } ==> e.tail() == Some(
            stderr_tail@,
        ),
{
}

} // verus!
