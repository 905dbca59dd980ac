//! The locked Chrome flag set for server-side fleets.

use crate::text;
use vstd::prelude::*;

verus! {

/// Flags applied to every launched browser.
///
/// The set is the consensus across major automation launchers: headless, no
/// first-run surfaces, no phone-home services, no throttling of background
/// work, deterministic rendering color space, keychain and password store
/// disabled, no crash-restore prompt (a seeded profile dir reads as "crashed"
/// after a kill-based teardown). Sandbox stays ON; `--no-sandbox` is a
/// per-config opt-in.
pub open spec fn default_list() -> Seq<Seq<char>> {
    seq![
        "--headless"@,
        "--allow-pre-commit-input"@,
        "--disable-background-networking"@,
        "--disable-background-timer-throttling"@,
        "--disable-backgrounding-occluded-windows"@,
        "--disable-breakpad"@,
        "--disable-crash-reporter"@,
        "--disable-client-side-phishing-detection"@,
        "--disable-component-extensions-with-background-pages"@,
        "--disable-component-update"@,
        "--disable-default-apps"@,
        "--disable-dev-shm-usage"@,
        "--disable-extensions"@,
        "--disable-hang-monitor"@,
        "--disable-ipc-flooding-protection"@,
        "--disable-popup-blocking"@,
        "--disable-prompt-on-repost"@,
        "--disable-session-crashed-bubble"@,
        "--hide-crash-restore-bubble"@,
        "--disable-sync"@,
        "--disable-features=Translate,MediaRouter,DialMediaRouteProvider,OptimizationHints,AcceptCHFrame,DestroyProfileOnBrowserClose"@,
        "--export-tagged-pdf"@,
        "--force-color-profile=srgb"@,
        "--metrics-recording-only"@,
        "--mute-audio"@,
        "--no-default-browser-check"@,
        "--no-first-run"@,
        "--password-store=basic"@,
        "--use-mock-keychain"@,
        "--window-size=1280,720"@,
    ]
}

/// Flags applied to every launched browser.
pub fn default_flags() -> (r: Vec<String>)
    ensures
        text::views(r@) == default_list(),
{
    let mut r: Vec<String> = Vec::new();
    r.push("--headless".to_owned());
    r.push("--allow-pre-commit-input".to_owned());
    r.push("--disable-background-networking".to_owned());
    r.push("--disable-background-timer-throttling".to_owned());
    r.push("--disable-backgrounding-occluded-windows".to_owned());
    r.push("--disable-breakpad".to_owned());
    r.push("--disable-crash-reporter".to_owned());
    r.push("--disable-client-side-phishing-detection".to_owned());
    r.push("--disable-component-extensions-with-background-pages".to_owned());
    r.push("--disable-component-update".to_owned());
    r.push("--disable-default-apps".to_owned());
    r.push("--disable-dev-shm-usage".to_owned());
    r.push("--disable-extensions".to_owned());
    r.push("--disable-hang-monitor".to_owned());
    r.push("--disable-ipc-flooding-protection".to_owned());
    r.push("--disable-popup-blocking".to_owned());
    r.push("--disable-prompt-on-repost".to_owned());
    r.push("--disable-session-crashed-bubble".to_owned());
    r.push("--hide-crash-restore-bubble".to_owned());
    r.push("--disable-sync".to_owned());
    r.push("--disable-features=Translate,MediaRouter,DialMediaRouteProvider,OptimizationHints,AcceptCHFrame,DestroyProfileOnBrowserClose".to_owned());
    r.push("--export-tagged-pdf".to_owned());
    r.push("--force-color-profile=srgb".to_owned());
    r.push("--metrics-recording-only".to_owned());
    r.push("--mute-audio".to_owned());
    r.push("--no-default-browser-check".to_owned());
    r.push("--no-first-run".to_owned());
    r.push("--password-store=basic".to_owned());
    r.push("--use-mock-keychain".to_owned());
    r.push("--window-size=1280,720".to_owned());
    assert(text::views(r@) =~= default_list());
    r
}

/// Inputs for assembling the final argument list.
#[derive(Debug)]
pub struct FlagOptions<'a> {
    /// Fresh, session-owned profile directory.
    pub user_data_dir: &'a str,
    /// Append `--no-sandbox`. Off unless the environment cannot sandbox.
    pub no_sandbox: bool,
    /// User-supplied flags appended after the built-in set.
    pub extra: &'a Vec<String>,
}

/// The complete argument list: the built-in set, the pipe transport, the
/// profile directory, the sandbox opt-out, the extra flags, and the page.
pub open spec fn flags_of(
    user_data_dir: Seq<char>,
    no_sandbox: bool,
    extra: Seq<Seq<char>>,
) -> Seq<Seq<char>> {
    default_list().push("--remote-debugging-pipe"@).push("--user-data-dir="@ + user_data_dir) + (
    if no_sandbox {
        seq!["--no-sandbox"@]
    } else {
        Seq::empty()
    }) + extra + seq!["about:blank"@]
}

/// Builds the complete argument list for one browser launch (pipe transport).
pub fn build_flags(opts: &FlagOptions<'_>) -> (r: Vec<String>)
    ensures
        text::views(r@) == flags_of(
            opts.user_data_dir@,
            opts.no_sandbox,
            text::views(opts.extra@),
        ),
{
    let mut args = default_flags();
    args.push("--remote-debugging-pipe".to_owned());
    let mut dir = "--user-data-dir=".to_owned();
    dir.append(opts.user_data_dir);
    args.push(dir);
    let ghost base = default_list().push("--remote-debugging-pipe"@).push(
        "--user-data-dir="@ + opts.user_data_dir@,
    );
    assert(text::views(args@) =~= base);
    let ghost middle = if opts.no_sandbox {
        seq!["--no-sandbox"@]
    } else {
        Seq::empty()
    };
    if opts.no_sandbox {
        args.push("--no-sandbox".to_owned());
    }
    assert(text::views(args@) =~= base + middle);
    let ghost all = text::views(opts.extra@);
    let mut i: usize = 0;
    assert(all.take(0) =~= Seq::empty());
    assert(text::views(args@) =~= base + middle + all.take(0));
    while i < opts.extra.len()
        invariant
            i <= opts.extra@.len(),
            all == text::views(opts.extra@),
            text::views(args@) == base + middle + all.take(i as int),
        decreases opts.extra.len() - i,
    {
        let ghost before = args@;
        args.push(opts.extra[i].clone());
        assert(text::views(args@) =~= text::views(before).push(all[i as int]));
        assert(text::views(args@) =~= base + middle + all.take(i + 1));
        i += 1;
    }
    assert(all.take(i as int) =~= all);
    let ghost before = args@;
    args.push("about:blank".to_owned());
    assert(text::views(args@) =~= text::views(before) + seq!["about:blank"@]);
    args
}

/// The sandbox stays on: unless it is opted out of, or an extra flag says so,
/// no flag turns it off.
pub proof fn sandbox_stays_on(user_data_dir: Seq<char>, extra: Seq<Seq<char>>)
    requires
        !extra.contains("--no-sandbox"@),
    ensures
        !flags_of(user_data_dir, false, extra).contains("--no-sandbox"@),
{
    reveal_strlit("--no-sandbox");
    reveal_strlit("--remote-debugging-pipe");
    reveal_strlit("--user-data-dir=");
    reveal_strlit("about:blank");
    let f = flags_of(user_data_dir, false, extra);
    let n = default_list().len() as int;
    assert forall|i: int| 0 <= i < f.len() implies f[i] != "--no-sandbox"@ by {
        if i < n {
            assert(f[i] == default_list()[i]);
            default_is_sandboxed(i);
        } else if i == n {
            assert(f[i] == "--remote-debugging-pipe"@);
            assert(f[i].len() != "--no-sandbox"@.len());
        } else if i == n + 1 {
            assert(f[i] == "--user-data-dir="@ + user_data_dir);
            assert(f[i][2] == 'u');
            assert("--no-sandbox"@[2] == 'n');
        } else if i < f.len() - 1 {
            assert(f[i] == extra[i - n - 2]);
            assert(extra.contains(extra[i - n - 2]));
        } else {
            assert(f[i] == "about:blank"@);
            assert(f[i].len() != "--no-sandbox"@.len());
        }
    }
}

proof fn default_is_sandboxed(i: int)
    requires
        0 <= i < default_list().len(),
    ensures
        default_list()[i] != "--no-sandbox"@,
{
    reveal_strlit("--no-sandbox");
    reveal_strlit("--headless");
    reveal_strlit("--allow-pre-commit-input");
    reveal_strlit("--disable-background-networking");
    reveal_strlit("--disable-background-timer-throttling");
    reveal_strlit("--disable-backgrounding-occluded-windows");
    reveal_strlit("--disable-breakpad");
    reveal_strlit("--disable-crash-reporter");
    reveal_strlit("--disable-client-side-phishing-detection");
    reveal_strlit("--disable-component-extensions-with-background-pages");
    reveal_strlit("--disable-component-update");
    reveal_strlit("--disable-default-apps");
    reveal_strlit("--disable-dev-shm-usage");
    reveal_strlit("--disable-extensions");
    reveal_strlit("--disable-hang-monitor");
    reveal_strlit("--disable-ipc-flooding-protection");
    reveal_strlit("--disable-popup-blocking");
    reveal_strlit("--disable-prompt-on-repost");
    reveal_strlit("--disable-session-crashed-bubble");
    reveal_strlit("--hide-crash-restore-bubble");
    reveal_strlit("--disable-sync");
    reveal_strlit("--disable-features=Translate,MediaRouter,DialMediaRouteProvider,OptimizationHints,AcceptCHFrame,DestroyProfileOnBrowserClose");
    reveal_strlit("--export-tagged-pdf");
    reveal_strlit("--force-color-profile=srgb");
    reveal_strlit("--metrics-recording-only");
    reveal_strlit("--mute-audio");
    reveal_strlit("--no-default-browser-check");
    reveal_strlit("--no-first-run");
    reveal_strlit("--password-store=basic");
    reveal_strlit("--use-mock-keychain");
    reveal_strlit("--window-size=1280,720");
    let f = default_list()[i];
    assert(f.len() != 12 || f[2] != 'n');
}

/// Extra flags come behind the built-in ones and in front of the page, and
/// they come in the order they were given.
pub proof fn extra_flags_keep_their_place(
    user_data_dir: Seq<char>,
    no_sandbox: bool,
    extra: Seq<Seq<char>>,
    k: int,
)
    requires
        0 <= k < extra.len(),
    ensures
        ({
            let f = flags_of(user_data_dir, no_sandbox, extra);
            let first = f.len() - 1 - extra.len();
            &&& first >= default_list().len()
            &&& f[first + k] == extra[k]
            &&& f.last() == "about:blank"@
        }),
{
}

} // verus!
