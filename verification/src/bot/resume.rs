//! Sessions that outlive a restart.

use crate::text::{decimal, decimal_of};
use vstd::prelude::*;
use vstd::string::StringExecFns;

verus! {

pub const INFO_FILE: &'static str = "azalea-resume-info.json";

pub const BACKUP_FILE: &'static str = "azalea-resume-info.json.bak";

/// The name of the file that is written first and renamed then; the process id
/// keeps overlapping processes apart.
pub fn temp_file_name(process_id: u32) -> (s: String)
    ensures
        s@ == "azalea-resume-info.json."@ + decimal(process_id as nat) + ".tmp"@,
{
    let mut s = "azalea-resume-info.json.".to_owned();
    s.append(decimal_of(process_id as u64).as_str());
    s.append(".tmp");
    s
}

/// A gateway session.
#[derive(Debug)]
pub struct SessionState {
    pub id: String,
    pub sequence: u64,
}

/// What is needed to resume one shard.
#[derive(Debug)]
pub struct SessionInfo {
    pub shard_id: u32,
    pub shard_total: u32,
    pub resume_url: Option<String>,
    pub session: Option<SessionState>,
}

impl SessionInfo {
    /// There is nothing to resume.
    pub open spec fn is_empty(&self) -> bool {
        self.resume_url is None && self.session is None
    }

    pub fn is_none(&self) -> (r: bool)
        ensures
            r == self.is_empty(),
    {
        self.resume_url.is_none() && self.session.is_none()
    }

    pub open spec fn fits(&self, shard: u32, total: u32) -> bool {
        self.shard_id == shard && self.shard_total == total
    }

    /// Whether the session belongs to a shard: its number and the number of
    /// shards are the same.
    pub fn matches(&self, shard: u32, total: u32) -> (r: bool)
        ensures
            r == self.fits(shard, total),
    {
        self.shard_id == shard && self.shard_total == total
    }
}

/// Whether there is anything to write down.
pub fn should_save(info: &Vec<SessionInfo>) -> (r: bool)
    ensures
        r == exists|i: int| 0 <= i < info@.len() && !(#[trigger] info@[i]).is_empty(),
{
    let mut i: usize = 0;
    while i < info.len()
        invariant
            i <= info@.len(),
            forall|j: int| 0 <= j < i ==> (#[trigger] info@[j]).is_empty(),
        decreases info@.len() - i,
    {
        if !info[i].is_none() {
            return true;
        }
        i = i + 1;
    }
    false
}

/// The place of the first session that belongs to a shard, from `i` on.
pub open spec fn first_fit(info: Seq<SessionInfo>, shard: u32, total: u32, i: int) -> Option<usize>
    decreases info.len() - i,
{
    if 0 <= i < info.len() {
        if info[i].fits(shard, total) {
            Some(i as usize)
        } else {
            first_fit(info, shard, total, i + 1)
        }
    } else {
        None
    }
}

fn find_fit(info: &Vec<SessionInfo>, shard: u32, total: u32) -> (r: Option<usize>)
    ensures
        r == first_fit(info@, shard, total, 0),
        r matches Some(i) ==> i < info@.len() && info@[i as int].fits(shard, total),
{
    let mut i: usize = 0;
    while i < info.len()
        invariant
            i <= info@.len(),
            first_fit(info@, shard, total, 0) == first_fit(info@, shard, total, i as int),
        decreases info@.len() - i,
    {
        if info[i].matches(shard, total) {
            return Some(i);
        }
        i = i + 1;
    }
    None
}

/// Which session each shard resumes with.
#[derive(Debug)]
pub struct RestorePlan {
    /// For each shard the place of its session, where there is one.
    pub sessions: Vec<Option<usize>>,
    /// Some shard resumes: the file is used up.
    pub resumed: bool,
}

/// Give every shard the first session that belongs to it.
pub fn restore(info: &Vec<SessionInfo>, shards: u32) -> (r: RestorePlan)
    ensures
        r.sessions@.len() == shards,
        forall|s: int|
            0 <= s < shards ==> #[trigger] r.sessions@[s] == first_fit(info@, s as u32, shards, 0),
        forall|s: int|
            0 <= s < shards && (#[trigger] r.sessions@[s]) is Some ==> r.sessions@[s]->0
                < info@.len() && info@[r.sessions@[s]->0 as int].fits(s as u32, shards),
        r.resumed == exists|s: int| 0 <= s < shards && (#[trigger] r.sessions@[s]) is Some,
{
    let mut sessions: Vec<Option<usize>> = Vec::new();
    let mut resumed = false;
    let mut shard: u32 = 0;
    while shard < shards
        invariant
            shard <= shards,
            sessions@.len() == shard,
            forall|s: int|
                0 <= s < shard ==> #[trigger] sessions@[s] == first_fit(
                    info@,
                    s as u32,
                    shards,
                    0,
                ),
            forall|s: int|
                0 <= s < shard && (#[trigger] sessions@[s]) is Some ==> sessions@[s]->0
                    < info@.len() && info@[sessions@[s]->0 as int].fits(s as u32, shards),
            resumed == exists|s: int| 0 <= s < shard && (#[trigger] sessions@[s]) is Some,
        decreases shards - shard,
    {
        let found = find_fit(info, shard, shards);
        let ghost before = sessions@;
        sessions.push(found);
        proof {
            assert(sessions@[shard as int] == found);
            if resumed {
                let s = choose|s: int| 0 <= s < shard && (#[trigger] before[s]) is Some;
                assert(sessions@[s] is Some);
            }
            assert forall|s: int| 0 <= s < shard implies #[trigger] sessions@[s] == before[s] by {}
        }
        if found.is_some() {
            resumed = true;
        }
        shard = shard + 1;
    }
    RestorePlan { sessions, resumed }
}

/// A saved session goes to the shard it came from: where the number of shards
/// is unchanged and every shard saved one entry, shard `s` resumes with its
/// own.
pub proof fn lemma_saved_sessions_return(info: Seq<SessionInfo>, shards: u32, s: int)
    requires
        info.len() == shards,
        forall|i: int| 0 <= i < shards ==> (#[trigger] info[i]).fits(i as u32, shards),
        0 <= s < shards,
    ensures
        first_fit(info, s as u32, shards, 0) == Some(s as usize),
{
    lemma_first_fit(info, shards, s, 0);
}

proof fn lemma_first_fit(info: Seq<SessionInfo>, shards: u32, s: int, i: int)
    requires
        info.len() == shards,
        forall|j: int| 0 <= j < shards ==> (#[trigger] info[j]).fits(j as u32, shards),
        0 <= i <= s < shards,
    ensures
        first_fit(info, s as u32, shards, i) == Some(s as usize),
    decreases s - i,
{
    assert(info[i].fits(i as u32, shards));
    if i < s {
        lemma_first_fit(info, shards, s, i + 1);
    }
}

/// A shard gets the first session that is its own, of as many shards; none
/// where there is none.
pub proof fn lemma_first_own_session_is_taken(
    info: Seq<SessionInfo>,
    shard: u32,
    total: u32,
    i: int,
)
    requires
        0 <= i <= info.len() <= usize::MAX,
    ensures
        first_fit(info, shard, total, i) matches Some(at) ==> i <= at < info.len()
            && info[at as int].shard_id == shard && info[at as int].shard_total == total && (
        forall|k: int|
            i <= k < at ==> (#[trigger] info[k]).shard_id != shard || info[k].shard_total != total),
        first_fit(info, shard, total, i) is None ==> (forall|k: int|
            i <= k < info.len() ==> (#[trigger] info[k]).shard_id != shard || info[k].shard_total
                != total),
    decreases info.len() - i,
{
    if i < info.len() && !info[i].fits(shard, total) {
        lemma_first_own_session_is_taken(info, shard, total, i + 1);
    }
}

/// There is nothing to resume only where neither an address nor a session is
/// known.
pub proof fn lemma_nothing_to_resume(info: SessionInfo)
    ensures
        !info.is_empty() <==> info.resume_url is Some || info.session is Some,
{
}

} // verus!
