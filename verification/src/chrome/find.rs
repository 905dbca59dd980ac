//! Chrome/Chromium executable discovery.

use crate::platform::Platform;
use crate::text;
use vstd::prelude::*;

verus! {

/// Errors from executable discovery.
#[derive(Debug, PartialEq, Eq)]
pub enum FindError {
    /// No known installation location contained an executable browser.
    NotFound {
        /// Number of candidate locations probed.
        searched: usize,
    },
    /// An explicitly configured path is missing or not executable.
    BadExplicit {
        /// The rejected path.
        path: String,
    },
}

impl FindError {
    /// What the error says.
    pub open spec fn says(self) -> Seq<char> {
        match self {
            FindError::NotFound { searched } => "no Chrome or Chromium executable found in "@
                + text::decimal_of(searched as nat)
                + " known locations; set chrome.executablePath in the config or the BROWSERSERVE_CHROME_PATH environment variable"@,
            FindError::BadExplicit { path } =>
            "configured chrome executable is missing or not executable: "@ + path@,
        }
    }

    /// The error as text.
    pub fn message(&self) -> (r: String)
        ensures
            r@ == self.says(),
    {
        match self {
            FindError::NotFound { searched } => {
                let mut s = "no Chrome or Chromium executable found in ".to_owned();
                s.append(text::decimal(*searched as u128).as_str());
                s.append(
                    " known locations; set chrome.executablePath in the config or the BROWSERSERVE_CHROME_PATH environment variable",
                );
                s
            },
            FindError::BadExplicit { path } => {
                let mut s =
                    "configured chrome executable is missing or not executable: ".to_owned();
                s.append(path.as_str());
                s
            },
        }
    }
}

/// The well-known locations of a platform, in the order they are probed.
pub open spec fn known_locations(platform: Platform) -> Seq<Seq<char>> {
    match platform {
        Platform::Linux => seq![
            "/usr/bin/chromium"@,
            "/usr/bin/chromium-browser"@,
            "/usr/bin/google-chrome-stable"@,
            "/usr/bin/google-chrome"@,
            "/usr/local/bin/chromium"@,
            "/usr/local/bin/google-chrome"@,
            "/snap/bin/chromium"@,
        ],
        Platform::MacOs => seq![
            "/Applications/Google Chrome.app/Contents/MacOS/Google Chrome"@,
            "/Applications/Chromium.app/Contents/MacOS/Chromium"@,
            "/Applications/Google Chrome Beta.app/Contents/MacOS/Google Chrome Beta"@,
            "/Applications/Google Chrome Canary.app/Contents/MacOS/Google Chrome Canary"@,
        ],
    }
}

fn candidates(platform: Platform) -> (r: Vec<String>)
    ensures
        text::views(r@) == known_locations(platform),
{
    let mut r: Vec<String> = Vec::new();
    match platform {
        Platform::Linux => {
            r.push("/usr/bin/chromium".to_owned());
            r.push("/usr/bin/chromium-browser".to_owned());
            r.push("/usr/bin/google-chrome-stable".to_owned());
            r.push("/usr/bin/google-chrome".to_owned());
            r.push("/usr/local/bin/chromium".to_owned());
            r.push("/usr/local/bin/google-chrome".to_owned());
            r.push("/snap/bin/chromium".to_owned());
        },
        Platform::MacOs => {
            r.push("/Applications/Google Chrome.app/Contents/MacOS/Google Chrome".to_owned());
            r.push("/Applications/Chromium.app/Contents/MacOS/Chromium".to_owned());
            r.push(
                "/Applications/Google Chrome Beta.app/Contents/MacOS/Google Chrome Beta".to_owned(),
            );
            r.push(
                "/Applications/Google Chrome Canary.app/Contents/MacOS/Google Chrome Canary".to_owned(),
            );
        },
    }
    assert(text::views(r@) =~= known_locations(platform));
    r
}

/// The paths whose executability decides: the configured one alone, or the
/// well-known ones.
pub open spec fn probed(platform: Platform, explicit: Option<Seq<char>>) -> Seq<Seq<char>> {
    match explicit {
        Some(path) => seq![path],
        None => known_locations(platform),
    }
}

/// The paths whose executability decides.
pub fn search_paths(platform: Platform, explicit: Option<&str>) -> (r: Vec<String>)
    ensures
        text::views(r@) == probed(platform, text::opt_str(explicit)),
{
    match explicit {
        Some(path) => {
            let mut r: Vec<String> = Vec::new();
            r.push(path.to_owned());
            assert(text::views(r@) =~= seq![path@]);
            r
        },
        None => candidates(platform),
    }
}

/// The first of `paths` that is executable.
pub open spec fn first_executable(paths: Seq<Seq<char>>, executable: Seq<Seq<char>>) -> Option<
    Seq<char>,
>
    decreases paths.len(),
{
    if paths.len() == 0 {
        None
    } else if executable.contains(paths[0]) {
        Some(paths[0])
    } else {
        first_executable(paths.skip(1), executable)
    }
}

/// Resolves the browser executable to launch, where `executable` lists those of
/// [`search_paths`] that are executable files.
///
/// An explicit path is validated and used as-is; otherwise the platform's
/// well-known locations are taken in order.
pub fn find_chrome(
    platform: Platform,
    explicit: Option<&str>,
    executable: &Vec<String>,
) -> (r: Result<String, FindError>)
    ensures
        match first_executable(probed(platform, text::opt_str(explicit)), text::views(executable@)) {
            Some(path) => r matches Ok(p) && p@ == path,
            None => match explicit {
                Some(path) => r matches Err(FindError::BadExplicit { path: p }) && p@ == path@,
                None => r == Err::<String, FindError>(
                    (FindError::NotFound { searched: known_locations(platform).len() as usize }),
                ),
            },
        },
{
    let paths = search_paths(platform, explicit);
    let ghost all = text::views(paths@);
    let mut i: usize = 0;
    assert(all.skip(0) =~= all);
    while i < paths.len()
        invariant
            i <= paths@.len(),
            all == text::views(paths@),
            all == probed(platform, text::opt_str(explicit)),
            first_executable(all.skip(i as int), text::views(executable@)) == first_executable(
                all,
                text::views(executable@),
            ),
        decreases paths.len() - i,
    {
        assert(all.skip(i as int)[0] == paths@[i as int]@);
        assert(all.skip(i as int).skip(1) =~= all.skip(i + 1));
        if text::list_has(executable, paths[i].as_str()) {
            return Ok(paths[i].clone());
        }
        i += 1;
    }
    assert(all.len() == paths@.len());
    match explicit {
        Some(path) => Err(FindError::BadExplicit { path: path.to_owned() }),
        None => Err(FindError::NotFound { searched: paths.len() }),
    }
}

/// A configured browser is used or refused; no other one is ever launched in
/// its place.
pub proof fn explicit_path_is_used_as_is(
    platform: Platform,
    path: Seq<char>,
    executable: Seq<Seq<char>>,
)
    ensures
        first_executable(probed(platform, Some(path)), executable) matches Some(p) ==> p == path,
        first_executable(probed(platform, Some(path)), executable) is Some
            <==> executable.contains(path),
{
    let s = seq![path];
    assert(s.skip(1) =~= Seq::empty());
    reveal_with_fuel(first_executable, 2);
}

} // verus!
