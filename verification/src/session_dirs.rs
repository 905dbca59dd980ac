//! Per-session profile directories: provision fresh, destroy completely.

use crate::paths;
use crate::random;
use crate::text;
use vstd::prelude::*;

verus! {

/// How often the removal of a session tree is tried.
pub const TEARDOWN_ATTEMPTS: u32 = 5;

/// Random bytes in a session id.
pub const ID_BYTES: usize = 16;

/// Disk locations owned by exactly one browser session.
#[derive(Debug, Clone)]
pub struct SessionDirs {
    /// Root of this session's state; removed wholesale on teardown.
    pub root: String,
    /// The Chrome `--user-data-dir`, created empty.
    pub user_data_dir: String,
}

/// Whether `c` is a lower-case hexadecimal digit.
pub open spec fn is_hex(c: char) -> bool {
    ('0' <= c && c <= '9') || ('a' <= c && c <= 'f')
}

/// Whether a text has the shape of a random session id: hexadecimal digits in
/// groups of eight, four, four, four and twelve, with the digits that mark a
/// random one.
pub open spec fn id_shaped(id: Seq<char>) -> bool {
    &&& id.len() == 36
    &&& forall|i: int|
        0 <= i < 36 ==> if i == 8 || i == 13 || i == 18 || i == 23 {
            #[trigger] id[i] == '-'
        } else {
            is_hex(id[i])
        }
    &&& id[14] == '4'
    &&& id[19] == '8' || id[19] == '9' || id[19] == 'a' || id[19] == 'b'
}

/// A hexadecimal digit.
pub open spec fn hex_digit(n: int) -> char {
    if n < 10 {
        (48 + n) as char
    } else {
        (87 + n) as char
    }
}

/// The `k`th byte of an id made of `bytes`: two of them carry the marks of a
/// random id.
pub open spec fn id_byte(bytes: Seq<u8>, k: int) -> int {
    if k == 6 {
        64 + bytes[k] as int % 16
    } else if k == 8 {
        128 + bytes[k] as int % 64
    } else {
        bytes[k] as int
    }
}

/// The `d`th digit of an id made of `bytes`: two for each byte, the upper one
/// first.
pub open spec fn id_digit(bytes: Seq<u8>, d: int) -> char {
    hex_digit(
        if d % 2 == 0 {
            id_byte(bytes, d / 2) / 16
        } else {
            id_byte(bytes, d / 2) % 16
        },
    )
}

/// The id made of these bytes: its digits in five groups, with hyphens between
/// them.
pub open spec fn id_of(bytes: Seq<u8>) -> Seq<char> {
    Seq::new(
        36,
        |i: int|
            if i == 8 || i == 13 || i == 18 || i == 23 {
                '-'
            } else if i < 8 {
                id_digit(bytes, i)
            } else if i < 13 {
                id_digit(bytes, i - 1)
            } else if i < 18 {
                id_digit(bytes, i - 2)
            } else if i < 23 {
                id_digit(bytes, i - 3)
            } else {
                id_digit(bytes, i - 4)
            },
    )
}

/// Calls `uuid::Builder::from_random_bytes` and `Display` of the id that it
/// builds: the bytes in the hyphenated lower-case form, with version and
/// variant set to those of a random id.
#[verifier::external_body]
fn id_text(bytes: &Vec<u8>) -> (r: String)
    requires
        bytes@.len() == ID_BYTES,
    ensures
        r@ == id_of(bytes@),
{
    let mut raw = uuid::Bytes::default();
    raw.copy_from_slice(bytes);
    uuid::Builder::from_random_bytes(raw).into_uuid().to_string()
}

/// The session id made of drawn bytes, unless the system failed to fill them.
pub fn id_from(filled: bool, bytes: &Vec<u8>) -> (r: Option<String>)
    requires
        bytes@.len() == ID_BYTES,
    ensures
        text::opt_view(r) == (if filled {
            Some(id_of(bytes@))
        } else {
            None
        }),
{
    if filled {
        Some(id_text(bytes))
    } else {
        None
    }
}

/// A random session id, unless the system has no randomness to give.
pub fn new_session_id() -> (r: Option<String>)
    ensures
        r matches Some(id) ==> id_shaped(id@),
{
    let mut bytes = random::zeros(ID_BYTES);
    let filled = random::fill_random(&mut bytes);
    proof {
        drawn_id_is_shaped(bytes@);
    }
    id_from(filled, &bytes)
}

/// The id made of any sixteen bytes has the shape of a random session id.
pub proof fn drawn_id_is_shaped(bytes: Seq<u8>)
    requires
        bytes.len() == ID_BYTES,
    ensures
        id_shaped(id_of(bytes)),
{
    let id = id_of(bytes);
    assert(forall|d: int| 0 <= d < 32 ==> is_hex(#[trigger] id_digit(bytes, d)));
    assert(id[14] == id_digit(bytes, 12));
    assert(id[19] == id_digit(bytes, 16));
}

/// Where the session trees are.
pub open spec fn sessions_in(data_dir: Seq<char>) -> Seq<char> {
    paths::join_of(data_dir, "sessions"@)
}

/// Where the session trees are.
pub fn sessions_dir(data_dir: &str) -> (r: String)
    ensures
        r@ == sessions_in(data_dir@),
{
    paths::join(data_dir, "sessions")
}

impl SessionDirs {
    /// Whether these are the directories of session `id`.
    pub open spec fn belong_to(self, data_dir: Seq<char>, id: Seq<char>) -> bool {
        &&& self.root@ == paths::join_of(sessions_in(data_dir), id)
        &&& self.user_data_dir@ == paths::join_of(self.root@, "user-data-dir"@)
    }

    /// Whether these are the directories of a session with a random id.
    pub open spec fn are_new_in(self, data_dir: Seq<char>) -> bool {
        exists|id: Seq<char>| id_shaped(id) && #[trigger] self.belong_to(data_dir, id)
    }

    /// The directories of session `id` under `data_dir`, to be created empty.
    pub fn provision_plain(data_dir: &str, id: &str) -> (r: SessionDirs)
        ensures
            r.belong_to(data_dir@, id@),
    {
        let root = paths::join(sessions_dir(data_dir).as_str(), id);
        let user_data_dir = paths::join(root.as_str(), "user-data-dir");
        SessionDirs { root, user_data_dir }
    }

    /// The directories of a new session under `data_dir`, unless the system has
    /// no randomness for its id.
    pub fn fresh(data_dir: &str) -> (r: Option<SessionDirs>)
        ensures
            r matches Some(dirs) ==> dirs.are_new_in(data_dir@),
    {
        match new_session_id() {
            Some(id) => {
                let dirs = SessionDirs::provision_plain(data_dir, id.as_str());
                assert(dirs.belong_to(data_dir@, id@));
                assert(dirs.are_new_in(data_dir@));
                Some(dirs)
            },
            None => None,
        }
    }
}

/// How one try to remove something ended.
#[derive(Debug, Clone, Copy, PartialEq, Eq, Structural)]
pub enum Removal {
    /// It is removed.
    Removed,
    /// It was not there.
    Missing,
    /// It could not be removed.
    Failed,
}

/// What follows a try.
#[derive(Debug, Clone, Copy, PartialEq, Eq, Structural)]
pub enum Retry {
    /// It is gone.
    Done,
    /// Try again after this many milliseconds.
    Sleep(u64),
    /// It stays.
    GiveUp,
}

/// What follows the `attempt`th of `attempts` tries: the pauses grow by a
/// tenth of a second each.
pub open spec fn retry_of(attempts: u32, attempt: u32, gone: bool) -> Retry {
    if gone {
        Retry::Done
    } else if attempt < attempts {
        Retry::Sleep((100 * attempt) as u64)
    } else {
        Retry::GiveUp
    }
}

/// What follows the `attempt`th of `attempts` tries.
pub fn retry(attempts: u32, attempt: u32, gone: bool) -> (r: Retry)
    ensures
        r == retry_of(attempts, attempt, gone),
{
    if gone {
        Retry::Done
    } else if attempt < attempts {
        Retry::Sleep(100 * attempt as u64)
    } else {
        Retry::GiveUp
    }
}

/// What follows the `attempt`th try to remove a session tree. Retries briefly
/// because Chrome may still be flushing files at the moment its process exits;
/// a tree that is not there counts as removed.
pub fn teardown_step(attempt: u32, outcome: Removal) -> (r: Retry)
    ensures
        r == retry_of(TEARDOWN_ATTEMPTS, attempt, !(outcome is Failed)),
{
    let gone = match outcome {
        Removal::Failed => false,
        _ => true,
    };
    retry(TEARDOWN_ATTEMPTS, attempt, gone)
}

/// What a sweep of leftover session trees finds.
#[derive(Debug)]
pub enum Listing {
    /// There is no session directory.
    Missing,
    /// It could not be listed.
    Failed(String),
    /// Its entries, and whether each was removed.
    Entries(Vec<bool>),
}

/// How many of `flags` are set.
pub open spec fn set_count(flags: Seq<bool>) -> nat
    decreases flags.len(),
{
    if flags.len() == 0 {
        0
    } else {
        set_count(flags.drop_last()) + if flags.last() {
            1nat
        } else {
            0nat
        }
    }
}

/// How many leftover session trees from previous runs were removed. Trees
/// whose removal failed are skipped.
pub fn clean_stale(listing: Listing) -> (r: Result<usize, String>)
    ensures
        match listing {
            Listing::Missing => r == Ok::<usize, String>(0),
            Listing::Failed(e) => r == Err::<usize, String>(e),
            Listing::Entries(flags) => r matches Ok(n) && n == set_count(flags@),
        },
{
    match listing {
        Listing::Missing => Ok(0),
        Listing::Failed(e) => Err(e),
        Listing::Entries(flags) => {
            let mut removed: usize = 0;
            let mut i: usize = 0;
            assert(flags@.take(0) =~= Seq::empty());
            while i < flags.len()
                invariant
                    i <= flags@.len(),
                    removed <= i,
                    removed == set_count(flags@.take(i as int)),
                decreases flags.len() - i,
            {
                proof {
                    assert(flags@.take(i + 1).drop_last() =~= flags@.take(i as int));
                    assert(flags@.take(i + 1).last() == flags@[i as int]);
                }
                if flags[i] {
                    removed += 1;
                }
                i += 1;
            }
            assert(flags@.take(i as int) =~= flags@);
            Ok(removed)
        },
    }
}

/// Every session has directories of its own: different ids have different
/// roots, each directly below the session directory.
pub proof fn sessions_do_not_share(data_dir: Seq<char>, a: SessionDirs, b: SessionDirs, x: Seq<char>, y: Seq<char>)
    requires
        id_shaped(x),
        id_shaped(y),
        x != y,
        a.belong_to(data_dir, x),
        b.belong_to(data_dir, y),
    ensures
        a.root@ != b.root@,
        a.user_data_dir@ != b.user_data_dir@,
{
    reveal_strlit("/");
    reveal_strlit("sessions");
    reveal_strlit("user-data-dir");
    let base = sessions_in(data_dir);
    assert(base.len() > 0 && base.last() == 's');
    id_is_relative(x);
    id_is_relative(y);
    assert(a.root@ == base + "/"@ + x);
    assert(b.root@ == base + "/"@ + y);
    let n = base.len() as int + 1;
    assert(a.root@.skip(n) =~= x);
    assert(b.root@.skip(n) =~= y);
    assert(a.root@.len() == b.root@.len());
    assert(a.root@.last() == x.last());
    assert(b.root@.last() == y.last());
    let m = a.root@.len() as int;
    assert(a.user_data_dir@ == a.root@ + "/"@ + "user-data-dir"@);
    assert(b.user_data_dir@ == b.root@ + "/"@ + "user-data-dir"@);
    assert(a.user_data_dir@.take(m) =~= a.root@);
    assert(b.user_data_dir@.take(m) =~= b.root@);
}

proof fn id_is_relative(id: Seq<char>)
    requires
        id_shaped(id),
    ensures
        !paths::is_absolute(id),
        id.last() != '/',
        !id.contains('/'),
{
    assert(is_hex(id[0]));
    assert(is_hex(id[35]));
    assert forall|i: int| 0 <= i < id.len() implies id[i] != '/' by {}
}

} // verus!
