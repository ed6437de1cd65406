use vstd::prelude::*;
use crate::order::compare_strs;
use crate::photo::Image;

verus! {

/// How a request for the catalog settled.
#[derive(Debug)]
pub enum FetchOutcome {
    /// The request never got a response.
    Failed,
    /// A response came back with this status; `images` is its body read as
    /// a catalog, or `None` where it was not read or did not parse.
    Responded { status: u16, images: Option<Vec<Image>> },
}

/// A status in the success range 200 to 299.
pub open spec fn status_ok(status: u16) -> bool {
    200 <= status <= 299
}

/// The catalog that an outcome gives: the parsed body of a successful
/// response, and the empty catalog on every failure.
pub open spec fn catalog_of(outcome: FetchOutcome) -> Seq<Image> {
    match outcome {
        FetchOutcome::Responded { status, images: Some(v) } => if status_ok(status) {
            v@
        } else {
            Seq::empty()
        },
        _ => Seq::empty(),
    }
}

/// Turns the outcome of the catalog request into the catalog. Failures do
/// not propagate: a network error, a status outside 200..=299 or a body that
/// does not parse all give the empty catalog.
pub fn fetch_images(outcome: FetchOutcome) -> (r: Vec<Image>)
    ensures
        r@ == catalog_of(outcome),
        outcome is Failed ==> r@.len() == 0,
        outcome matches FetchOutcome::Responded { status, images } && (!status_ok(status)
            || images is None) ==> r@.len() == 0,
{
    match outcome {
        FetchOutcome::Failed => Vec::new(),
        FetchOutcome::Responded { status, images } => {
            if status < 200 || status > 299 {
                Vec::new()
            } else {
                match images {
                    Some(v) => v,
                    None => Vec::new(),
                }
            }
        },
    }
}

/// The position of the first photo of `images` whose content hash is `hash`.
pub fn find_by_hash(images: &Vec<Image>, hash: &str) -> (r: Option<usize>)
    ensures
        r matches Some(i) ==> i < images@.len() && images@[i as int].sha256@ == hash@ && forall|k: int|
            0 <= k < i ==> (#[trigger] images@[k]).sha256@ != hash@,
        r is None ==> forall|k: int| 0 <= k < images@.len() ==> (#[trigger] images@[k]).sha256@ != hash@,
{
    let mut i: usize = 0;
    while i < images.len()
        invariant
            i <= images@.len(),
            forall|k: int| 0 <= k < i ==> (#[trigger] images@[k]).sha256@ != hash@,
        decreases images@.len() - i,
    {
        if compare_strs(images[i].sha256.as_str(), hash) == 0 {
            return Some(i);
        }
        i = i + 1;
    }
    None
}

/// The catalog of one mounted view and the request that fills it. Each
/// request has a token; only the settlement of the request in flight, before
/// teardown, changes the catalog, and it replaces the catalog whole.
pub struct ImagesResource {
    next_token: u64,
    in_flight: Option<u64>,
    torn_down: bool,
    catalog: Option<(u64, Vec<Image>)>,
}

impl ImagesResource {
    /// The token of the request in flight, if any.
    pub closed spec fn pending(&self) -> Option<u64> {
        self.in_flight
    }

    /// Whether the owning view has been torn down.
    pub closed spec fn is_torn_down(&self) -> bool {
        self.torn_down
    }

    /// The token of the request that produced the current catalog: the
    /// catalog's identity.
    pub closed spec fn identity(&self) -> Option<u64> {
        match self.catalog {
            Some((t, _)) => Some(t),
            None => None,
        }
    }

    /// The current catalog, empty while none has landed.
    pub closed spec fn images(&self) -> Seq<Image> {
        match self.catalog {
            Some((_, v)) => v@,
            None => Seq::empty(),
        }
    }

    /// The smallest token that a new request may get.
    pub closed spec fn fresh_token(&self) -> nat {
        self.next_token as nat
    }

    /// Tokens handed out so far are below the next one.
    pub closed spec fn wf(&self) -> bool {
        &&& self.in_flight matches Some(t) ==> t < self.next_token
        &&& self.catalog matches Some((t, _)) ==> t < self.next_token
    }

    /// A resource with no catalog and no request.
    pub fn new() -> (r: ImagesResource)
        ensures
            r.wf(),
            r.pending() is None,
            !r.is_torn_down(),
            r.identity() is None,
            r.images().len() == 0,
            r.fresh_token() == 0,
    {
        ImagesResource { next_token: 0, in_flight: None, torn_down: false, catalog: None }
    }

    /// Starts a request and returns its token. A request still in flight is
    /// superseded: its settlement will be discarded.
    pub fn start(&mut self) -> (token: u64)
        requires
            old(self).wf(),
            old(self).fresh_token() < u64::MAX,
        ensures
            final(self).wf(),
            token == old(self).fresh_token(),
            final(self).pending() == Some(token),
            final(self).fresh_token() == old(self).fresh_token() + 1,
            final(self).is_torn_down() == old(self).is_torn_down(),
            final(self).identity() == old(self).identity(),
            final(self).images() == old(self).images(),
    {
        let token = self.next_token;
        self.next_token = self.next_token + 1;
        self.in_flight = Some(token);
        token
    }

    /// Tears the view down: the request in flight is to be aborted and its
    /// settlement discarded. Returns whether a request was in flight.
    pub fn cancel(&mut self) -> (aborted: bool)
        requires
            old(self).wf(),
        ensures
            final(self).wf(),
            aborted == old(self).pending() is Some,
            final(self).pending() is None,
            final(self).is_torn_down(),
            final(self).identity() == old(self).identity(),
            final(self).images() == old(self).images(),
            final(self).fresh_token() == old(self).fresh_token(),
    {
        let aborted = self.in_flight.is_some();
        self.in_flight = None;
        self.torn_down = true;
        aborted
    }

    /// Settles the request `token` with `outcome`. When it is the request in
    /// flight and the view is still up, the catalog is replaced whole by
    /// what the outcome gives (empty on failure) and `true` comes back;
    /// otherwise nothing changes.
    pub fn resolve(&mut self, token: u64, outcome: FetchOutcome) -> (applied: bool)
        requires
            old(self).wf(),
        ensures
            final(self).wf(),
            applied == (!old(self).is_torn_down() && old(self).pending() == Some(token)),
            applied ==> final(self).identity() == Some(token) && final(self).images()
                == catalog_of(outcome) && final(self).pending() is None,
            !applied ==> final(self).identity() == old(self).identity() && final(self).images()
                == old(self).images() && final(self).pending() == old(self).pending(),
            final(self).is_torn_down() == old(self).is_torn_down(),
            final(self).fresh_token() == old(self).fresh_token(),
    {
        let current = match self.in_flight {
            Some(t) => t == token,
            None => false,
        };
        if self.torn_down || !current {
            return false;
        }
        let images = fetch_images(outcome);
        self.catalog = Some((token, images));
        self.in_flight = None;
        true
    }

    /// The catalog's identity, if one has landed.
    pub fn identity_token(&self) -> (r: Option<u64>)
        ensures
            r == self.identity(),
    {
        match &self.catalog {
            Some((t, _)) => Some(*t),
            None => None,
        }
    }

    /// The current catalog, if one has landed.
    pub fn current(&self) -> (r: Option<&Vec<Image>>)
        ensures
            r is Some <==> self.identity() is Some,
            r matches Some(v) ==> v@ == self.images(),
    {
        match &self.catalog {
            Some((_, v)) => Some(v),
            None => None,
        }
    }

    /// Whether a request is in flight.
    pub fn is_loading(&self) -> (r: bool)
        ensures
            r == self.pending() is Some,
    {
        self.in_flight.is_some()
    }
}

} // verus!
