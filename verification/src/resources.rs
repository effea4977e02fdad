//! Which resources (images, fonts, icons) the application starts loading:
//! each requested resource once, unless it is loaded or already on its way.

use vstd::prelude::*;
use vstd::string::StringExecFns;

use crate::error::{ResourceError, RetGuiError};

verus! {

/// Where a resource comes from.
#[derive(Clone, Debug, PartialEq, Eq)]
pub enum ResourceId {
    Url(String),
    File(String),
    /// Bytes built into the program.
    StaticBytes(Vec<u8>),
}

/// What a resource is used as.
#[derive(Clone, Copy, Debug, PartialEq, Eq, Structural)]
pub enum ResourceType {
    Image,
    Font,
    TinyVg,
}

/// A resource id by its contents: the source kind, the text of a URL or
/// path, and built-in bytes.
pub open spec fn id_view(r: ResourceId) -> (int, Seq<char>, Seq<u8>) {
    match r {
        ResourceId::Url(s) => (0, s@, Seq::empty()),
        ResourceId::File(s) => (1, s@, Seq::empty()),
        ResourceId::StaticBytes(b) => (2, Seq::empty(), b@),
    }
}

/// A requested resource by its contents.
pub open spec fn entry_view(e: (ResourceId, ResourceType)) -> ((int, Seq<char>, Seq<u8>), ResourceType) {
    (id_view(e.0), e.1)
}

/// The contents of a list of requested resources.
pub open spec fn entries_view(s: Seq<(ResourceId, ResourceType)>) -> Seq<((int, Seq<char>, Seq<u8>), ResourceType)> {
    s.map_values(|e: (ResourceId, ResourceType)| entry_view(e))
}

fn same_bytes(a: &Vec<u8>, b: &Vec<u8>) -> (r: bool)
    ensures
        r == (a@ == b@),
{
    if a.len() != b.len() {
        return false;
    }
    let mut i: usize = 0;
    while i < a.len()
        invariant
            a@.len() == b@.len(),
            i <= a@.len(),
            forall|j: int| 0 <= j < i ==> a@[j] == b@[j],
        decreases a@.len() - i,
    {
        if a[i] != b[i] {
            return false;
        }
        i = i + 1;
    }
    assert(a@ =~= b@);
    true
}

/// Whether two resource ids name the same resource.
pub fn same_resource(a: &ResourceId, b: &ResourceId) -> (r: bool)
    ensures
        r == (id_view(*a) == id_view(*b)),
{
    match (a, b) {
        (ResourceId::Url(x), ResourceId::Url(y)) => *x == *y,
        (ResourceId::File(x), ResourceId::File(y)) => *x == *y,
        (ResourceId::StaticBytes(x), ResourceId::StaticBytes(y)) => same_bytes(x, y),
        _ => false,
    }
}

/// The downloads that requests start, in order, and the resources on their
/// way afterwards: a request starts a download unless its resource is
/// loaded already or is on its way (also when an earlier request of the same
/// batch started it).
pub open spec fn downloads(
    requests: Seq<((int, Seq<char>, Seq<u8>), ResourceType)>,
    loaded: Seq<bool>,
    in_progress: Seq<((int, Seq<char>, Seq<u8>), ResourceType)>,
) -> (Seq<int>, Seq<((int, Seq<char>, Seq<u8>), ResourceType)>)
    decreases requests.len(),
{
    if requests.len() == 0 {
        (Seq::empty(), in_progress)
    } else {
        let (started, progress) = downloads(requests.drop_last(), loaded, in_progress);
        let i = requests.len() - 1;
        if loaded[i] || progress.contains(requests[i]) {
            (started, progress)
        } else {
            (started.push(i), progress.push(requests[i]))
        }
    }
}

fn in_progress_contains(in_progress: &Vec<(ResourceId, ResourceType)>, e: &(ResourceId, ResourceType)) -> (r: bool)
    ensures
        r == entries_view(in_progress@).contains(entry_view(*e)),
{
    let ghost v = entries_view(in_progress@);
    let mut i: usize = 0;
    while i < in_progress.len()
        invariant
            i <= in_progress@.len(),
            v == entries_view(in_progress@),
            v.len() == in_progress@.len(),
            forall|j: int| 0 <= j < i ==> v[j] != entry_view(*e),
        decreases in_progress@.len() - i,
    {
        assert(v[i as int] == entry_view(in_progress@[i as int]));
        if same_resource(&in_progress[i].0, &e.0) && in_progress[i].1 == e.1 {
            return true;
        }
        i = i + 1;
    }
    false
}

fn clone_entry(e: &(ResourceId, ResourceType)) -> (r: (ResourceId, ResourceType))
    ensures
        entry_view(r) == entry_view(*e),
{
    let id = match &e.0 {
        ResourceId::Url(s) => ResourceId::Url(s.clone()),
        ResourceId::File(s) => ResourceId::File(s.clone()),
        ResourceId::StaticBytes(b) => {
            let mut c: Vec<u8> = Vec::new();
            let mut i: usize = 0;
            while i < b.len()
                invariant
                    i <= b@.len(),
                    c@ == b@.take(i as int),
                decreases b@.len() - i,
            {
                c.push(b[i]);
                assert(c@ =~= b@.take(i + 1));
                i = i + 1;
            }
            assert(c@ =~= b@);
            ResourceId::StaticBytes(c)
        },
    };
    (id, e.1)
}

/// Starts loading the requested resources: returns the positions of the
/// requests that start a download, in order, and records their resources as
/// on their way. `loaded` tells, per request, whether the resource manager
/// holds its resource already.
pub fn update_resources(
    requests: &Vec<(ResourceId, ResourceType)>,
    loaded: &Vec<bool>,
    in_progress: &mut Vec<(ResourceId, ResourceType)>,
) -> (r: Vec<usize>)
    requires
        loaded@.len() == requests@.len(),
    ensures
        ({
            let (started, progress) = downloads(entries_view(requests@), loaded@, entries_view(old(in_progress)@));
            &&& r@.len() == started.len()
            &&& forall|j: int| 0 <= j < started.len() ==> r@[j] as int == started[j]
            &&& entries_view(final(in_progress)@) == progress
        }),
{
    let ghost req = entries_view(requests@);
    let ghost start = entries_view(in_progress@);
    let mut r: Vec<usize> = Vec::new();
    let mut i: usize = 0;
    while i < requests.len()
        invariant
            i <= requests@.len(),
            loaded@.len() == requests@.len(),
            req == entries_view(requests@),
            req.len() == requests@.len(),
            ({
                let (started, progress) = downloads(req.take(i as int), loaded@, start);
                &&& r@.len() == started.len()
                &&& forall|j: int| 0 <= j < started.len() ==> r@[j] as int == started[j]
                &&& entries_view(in_progress@) == progress
            }),
        decreases requests@.len() - i,
    {
        proof {
            assert(req.take(i + 1).drop_last() =~= req.take(i as int));
            assert(req.take(i + 1)[i as int] == entry_view(requests@[i as int]));
        }
        let skip = loaded[i] || in_progress_contains(in_progress, &requests[i]);
        if !skip {
            let ghost before = in_progress@;
            let e = clone_entry(&requests[i]);
            in_progress.push(e);
            proof {
                assert(entries_view(in_progress@) =~= entries_view(before).push(entry_view(e)));
            }
            r.push(i);
        }
        i = i + 1;
    }
    assert(req.take(requests@.len() as int) =~= req);
    r
}

/// A resource is never on its way twice: when nothing on its way appears
/// twice before a batch of requests, nothing does after it.
pub proof fn lemma_no_duplicate_downloads(
    requests: Seq<((int, Seq<char>, Seq<u8>), ResourceType)>,
    loaded: Seq<bool>,
    in_progress: Seq<((int, Seq<char>, Seq<u8>), ResourceType)>,
)
    requires
        in_progress.no_duplicates(),
    ensures
        downloads(requests, loaded, in_progress).1.no_duplicates(),
    decreases requests.len(),
{
    if requests.len() > 0 {
        lemma_no_duplicate_downloads(requests.drop_last(), loaded, in_progress);
        let (started, progress) = downloads(requests.drop_last(), loaded, in_progress);
        let i = requests.len() - 1;
        if !(loaded[i] || progress.contains(requests[i])) {
            let p = progress.push(requests[i]);
            assert forall|a: int, b: int| 0 <= a < p.len() && 0 <= b < p.len() && a != b implies p[a] != p[b] by {
                if a < progress.len() && b < progress.len() {
                } else if a < progress.len() {
                    assert(progress.contains(progress[a]));
                } else {
                    assert(progress.contains(progress[b]));
                }
            }
        }
    }
}

/// The outcome of uploading font data: an error when the data held no font
/// that could be registered.
pub fn font_upload_result(registered_fonts: usize) -> (r: Result<(), RetGuiError>)
    ensures
        registered_fonts > 0 <==> r is Ok,
        r matches Err(e) ==> e matches RetGuiError::ResourceError(re) && re.message@
            == "No fonts found in uploaded data"@,
{
    if registered_fonts == 0 {
        Err(RetGuiError::ResourceError(ResourceError { message: String::from_str("No fonts found in uploaded data") }))
    } else {
        Ok(())
    }
}

} // verus!
