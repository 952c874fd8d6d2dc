use vstd::prelude::*;

verus! {

/// Why a render request was rejected.
#[derive(Clone, Copy, PartialEq, Eq, Structural, Debug)]
pub enum RequestError {
    /// The iteration budget was zero.
    ZeroBudget,
    /// The raster had no pixels.
    EmptyRaster,
}

/// A render request: the viewing window (kept as given), the iteration budget
/// and the raster size in pixels.
pub struct UpdateInfo<W> {
    iter: usize,
    dim: (u32, u32),
    window: W,
}

impl<W> UpdateInfo<W> {
    pub closed spec fn budget(&self) -> usize {
        self.iter
    }

    pub closed spec fn size(&self) -> (u32, u32) {
        self.dim
    }

    pub closed spec fn view_window(&self) -> W {
        self.window
    }

    /// A request; a zero budget or a raster without pixels is rejected.
    pub fn new(iter: usize, dim: (u32, u32), window: W) -> (r: Result<UpdateInfo<W>, RequestError>)
        ensures
            iter == 0 ==> r == Err::<UpdateInfo<W>, RequestError>(RequestError::ZeroBudget),
            iter > 0 && (dim.0 == 0 || dim.1 == 0) ==> r == Err::<UpdateInfo<W>, RequestError>(
                RequestError::EmptyRaster,
            ),
            r is Ok <==> iter > 0 && dim.0 > 0 && dim.1 > 0,
            r matches Ok(u) ==> u.budget() == iter && u.size() == dim && u.view_window() == window,
    {
        if iter == 0 {
            Err(RequestError::ZeroBudget)
        } else if dim.0 == 0 || dim.1 == 0 {
            Err(RequestError::EmptyRaster)
        } else {
            Ok(UpdateInfo { iter, dim, window })
        }
    }

    pub fn iter(&self) -> (r: usize)
        ensures
            r == self.budget(),
    {
        self.iter
    }

    pub fn dim(&self) -> (r: (u32, u32))
        ensures
            r == self.size(),
    {
        self.dim
    }

    pub fn window(&self) -> (r: &W)
        ensures
            *r == self.view_window(),
    {
        &self.window
    }
}

/// A finished raster: RGB bytes in row-major order, three per pixel.
pub struct RenderedImage {
    pixels: Vec<u8>,
    width: u32,
    height: u32,
}

impl RenderedImage {
    pub closed spec fn bytes(&self) -> Seq<u8> {
        self.pixels@
    }

    pub closed spec fn size(&self) -> (u32, u32) {
        (self.width, self.height)
    }

    pub open spec fn wf(&self) -> bool {
        self.bytes().len() == 3 * self.size().0 * self.size().1
    }

    /// An image of `width` by `height` pixels; `None` unless there are
    /// exactly three bytes per pixel.
    pub fn new(pixels: Vec<u8>, width: u32, height: u32) -> (r: Option<RenderedImage>)
        ensures
            r is Some <==> pixels@.len() == 3 * width * height,
            r matches Some(img) ==> img.wf() && img.bytes() == pixels@ && img.size() == (width, height),
    {
        proof {
            assert(3 * (width as int) * (height as int) <= 3 * 0xffff_ffff * 0xffff_ffff) by (nonlinear_arith)
                requires width <= 0xffff_ffff, height <= 0xffff_ffff;
        }
        let need: u128 = 3 * (width as u128) * (height as u128);
        if pixels.len() as u128 == need {
            Some(RenderedImage { pixels, width, height })
        } else {
            None
        }
    }

    pub fn pixels(&self) -> (r: &Vec<u8>)
        ensures
            r@ == self.bytes(),
    {
        &self.pixels
    }

    pub fn dim(&self) -> (r: (u32, u32))
        ensures
            r == self.size(),
    {
        (self.width, self.height)
    }
}

/// What the caller must do after a submit.
#[derive(Clone, Copy, PartialEq, Eq, Structural, Debug)]
pub enum SubmitAction {
    /// No worker was running: start one, which drains the requests.
    SpawnWorker,
    /// A worker is running and will pick the request up.
    Queued,
}

/// The coalescing, single-flight update coordinator. Requests are numbered in
/// the order they are submitted; a single slot holds the newest one not yet
/// taken, so older pending requests are superseded. One worker at a time
/// takes the newest request, renders it and publishes the image.
pub struct MandelUpdate<W> {
    running: bool,
    rendering: bool,
    pending: Option<(u64, UpdateInfo<W>)>,
    next_ticket: u64,
    taken: Option<u64>,
    published: Option<u64>,
    master: RenderedImage,
    requests: Ghost<Seq<UpdateInfo<W>>>,
}

/// `a <= b`, where `None` comes before every ticket.
pub open spec fn ticket_le(a: Option<u64>, b: Option<u64>) -> bool {
    match (a, b) {
        (None, _) => true,
        (Some(_), None) => false,
        (Some(x), Some(y)) => x <= y,
    }
}

impl<W> MandelUpdate<W> {
    /// A worker is alive (busy); otherwise the coordinator is idle.
    pub closed spec fn busy(&self) -> bool {
        self.running
    }

    /// The worker has taken a request and not yet finished it.
    pub closed spec fn in_flight(&self) -> bool {
        self.rendering
    }

    /// Every request submitted so far, in order; a request's ticket is its index.
    pub closed spec fn submitted(&self) -> Seq<UpdateInfo<W>> {
        self.requests@
    }

    /// Ticket of the request waiting in the slot, if any.
    pub closed spec fn pending_ticket(&self) -> Option<u64> {
        match self.pending {
            Some((t, _)) => Some(t),
            None => None,
        }
    }

    /// Ticket of the request the worker took last.
    pub closed spec fn last_taken(&self) -> Option<u64> {
        self.taken
    }

    /// Ticket of the request whose image is the current output.
    pub closed spec fn published_ticket(&self) -> Option<u64> {
        self.published
    }

    /// The current output image.
    pub closed spec fn output(&self) -> RenderedImage {
        self.master
    }

    pub closed spec fn wf(&self) -> bool {
        &&& self.next_ticket == self.requests@.len()
        &&& self.master.wf()
        &&& match self.pending {
            Some((t, u)) => t + 1 == self.next_ticket && self.requests@[t as int] == u && self.running
                && ticket_le(self.taken, Some(t)) && self.taken != Some(t),
            None => self.next_ticket > 0 ==> self.taken == Some((self.next_ticket - 1) as u64),
        }
        &&& (self.taken matches Some(t) ==> t < self.next_ticket)
        &&& (self.rendering ==> self.running && self.taken is Some)
        &&& ticket_le(self.published, self.taken)
        &&& (self.published matches Some(t) ==> self.master.size() == self.requests@[t as int].size())
    }

    /// An idle coordinator whose output starts as `img`.
    pub fn new(img: RenderedImage) -> (r: MandelUpdate<W>)
        requires
            img.wf(),
        ensures
            r.wf(),
            !r.busy(),
            !r.in_flight(),
            r.submitted().len() == 0,
            r.pending_ticket() is None,
            r.last_taken() is None,
            r.published_ticket() is None,
            r.output() == img,
    {
        MandelUpdate {
            running: false,
            rendering: false,
            pending: None,
            next_ticket: 0,
            taken: None,
            published: None,
            master: img,
            requests: Ghost(Seq::empty()),
        }
    }

    /// Whether another request can be numbered.
    pub fn has_ticket_room(&self) -> (r: bool)
        requires
            self.wf(),
        ensures
            r == (self.submitted().len() < u64::MAX),
    {
        self.next_ticket < u64::MAX
    }

    /// Submit a request. It replaces any request still waiting, which is thereby
    /// superseded and never rendered. When no worker is alive the coordinator
    /// becomes busy and asks the caller to start one. Never waits on a render.
    pub fn update(&mut self, state: UpdateInfo<W>) -> (action: SubmitAction)
        requires
            old(self).wf(),
            old(self).submitted().len() < u64::MAX,
        ensures
            final(self).wf(),
            final(self).submitted() == old(self).submitted().push(state),
            final(self).pending_ticket() == Some(old(self).submitted().len() as u64),
            final(self).busy(),
            action == SubmitAction::SpawnWorker <==> !old(self).busy(),
            final(self).in_flight() == old(self).in_flight(),
            final(self).last_taken() == old(self).last_taken(),
            final(self).published_ticket() == old(self).published_ticket(),
            final(self).output() == old(self).output(),
            ticket_le(old(self).published_ticket(), final(self).published_ticket()),
    {
        let ticket = self.next_ticket;
        self.pending = Some((ticket, state));
        self.next_ticket = ticket + 1;
        self.requests = Ghost(self.requests@.push(state));
        assert(self.requests@[ticket as int] == state);
        if self.running {
            SubmitAction::Queued
        } else {
            self.running = true;
            SubmitAction::SpawnWorker
        }
    }

    /// The worker's next step: take the newest waiting request with its ticket,
    /// or, when none waits, return `None`, and the coordinator becomes idle.
    pub fn take_latest(&mut self) -> (r: Option<(u64, UpdateInfo<W>)>)
        requires
            old(self).wf(),
            old(self).busy(),
            !old(self).in_flight(),
        ensures
            final(self).wf(),
            final(self).submitted() == old(self).submitted(),
            final(self).pending_ticket() is None,
            final(self).published_ticket() == old(self).published_ticket(),
            final(self).output() == old(self).output(),
            ticket_le(old(self).published_ticket(), final(self).published_ticket()),
            match r {
                Some((t, u)) => {
                    &&& old(self).pending_ticket() == Some(t)
                    &&& t + 1 == old(self).submitted().len()
                    &&& u == old(self).submitted()[t as int]
                    &&& final(self).last_taken() == Some(t)
                    &&& ticket_le(old(self).last_taken(), Some(t))
                    &&& final(self).busy() && final(self).in_flight()
                },
                None => {
                    &&& old(self).pending_ticket() is None
                    &&& final(self).last_taken() == old(self).last_taken()
                    &&& !final(self).busy() && !final(self).in_flight()
                },
            },
    {
        match self.pending.take() {
            Some((t, u)) => {
                self.taken = Some(t);
                self.rendering = true;
                Some((t, u))
            },
            None => {
                self.running = false;
                None
            },
        }
    }

    /// The worker finished the render of `ticket`: a completed image replaces
    /// the output; a failed render (`None`) leaves it as it was. Returns whether
    /// the output changed.
    pub fn finish(&mut self, ticket: u64, img: Option<RenderedImage>) -> (published: bool)
        requires
            old(self).wf(),
            old(self).in_flight(),
            old(self).last_taken() == Some(ticket),
            img matches Some(i) ==> i.wf() && i.size() == old(self).submitted()[ticket as int].size(),
        ensures
            final(self).wf(),
            published == img is Some,
            final(self).submitted() == old(self).submitted(),
            final(self).pending_ticket() == old(self).pending_ticket(),
            final(self).last_taken() == old(self).last_taken(),
            final(self).busy(),
            !final(self).in_flight(),
            ticket_le(old(self).published_ticket(), final(self).published_ticket()),
            published ==> final(self).published_ticket() == Some(ticket) && Some(final(self).output())
                == img,
            !published ==> final(self).published_ticket() == old(self).published_ticket()
                && final(self).output() == old(self).output(),
    {
        self.rendering = false;
        match img {
            Some(i) => {
                self.master = i;
                self.published = Some(ticket);
                true
            },
            None => false,
        }
    }

    /// The current output image; once a render has been published, it has the
    /// raster size of the request it renders.
    pub fn master(&self) -> (r: &RenderedImage)
        requires
            self.wf(),
        ensures
            *r == self.output(),
            r.wf(),
            self.published_ticket() matches Some(t) ==> r.size() == self.submitted()[t as int].size(),
    {
        &self.master
    }

    /// Whether a worker is alive.
    pub fn is_running(&self) -> (r: bool)
        ensures
            r == self.busy(),
    {
        self.running
    }
}

/// The output is never newer than the worker's last taken request, and a
/// waiting request is always the newest one submitted and newer than anything
/// taken. With `finish` publishing only the last taken ticket and
/// `take_latest` only taking newer ones, the published ticket never decreases.
pub proof fn output_follows_recency<W>(c: MandelUpdate<W>)
    requires
        c.wf(),
    ensures
        ticket_le(c.published_ticket(), c.last_taken()),
        c.published_ticket() matches Some(t) ==> c.output().size() == c.submitted()[t as int].size(),
        c.pending_ticket() matches Some(t) ==> t + 1 == c.submitted().len() && ticket_le(
            c.last_taken(),
            Some(t),
        ) && c.last_taken() != Some(t),
{
}

/// No request is dropped unseen: once the coordinator is idle, the worker has
/// taken the newest request submitted; every older one was either taken
/// before it or superseded by a newer one.
pub proof fn idle_has_taken_latest<W>(c: MandelUpdate<W>)
    requires
        c.wf(),
        !c.busy(),
        c.submitted().len() > 0,
    ensures
        c.last_taken() == Some((c.submitted().len() - 1) as u64),
        c.pending_ticket() is None,
        !c.in_flight(),
{
}

} // verus!
