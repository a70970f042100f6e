//! Routing of requests and the registry of live streams.

use vstd::prelude::*;
use vstd::string::*;
use crate::stream_view::AttachErrorView;
use crate::streams::AttachError;

verus! {

/// The request methods the relay tells apart.
#[derive(Clone, Copy, Debug, PartialEq, Eq, Structural)]
pub enum Method {
    Get,
    Put,
    Post,
    /// Any other method.
    Other,
}

/// The pieces of `s` between its `'/'` characters, in order. There is always
/// at least one piece; a piece is empty where two separators touch or where
/// `s` starts or ends with one.
pub open spec fn split_slash(s: Seq<char>) -> Seq<Seq<char>>
    decreases s.len(),
{
    if s.len() == 0 {
        seq![Seq::<char>::empty()]
    } else {
        let before = split_slash(s.drop_last());
        if s.last() == '/' {
            before.push(Seq::<char>::empty())
        } else {
            before.update(before.len() - 1, before.last().push(s.last()))
        }
    }
}

/// The components of a request path: its pieces after the first one, which
/// for an absolute path is the empty piece before the leading `'/'`.
pub open spec fn path_components(path: Seq<char>) -> Seq<Seq<char>> {
    split_slash(path).skip(1)
}

/// `split_slash` never returns an empty sequence.
pub proof fn lemma_split_slash_nonempty(s: Seq<char>)
    ensures
        split_slash(s).len() >= 1,
    decreases s.len(),
{
    if s.len() > 0 {
        lemma_split_slash_nonempty(s.drop_last());
    }
}

/// The pieces put together again, with a `'/'` between each two.
pub open spec fn join_slash(pieces: Seq<Seq<char>>) -> Seq<char>
    decreases pieces.len(),
{
    if pieces.len() == 0 {
        Seq::empty()
    } else if pieces.len() == 1 {
        pieces[0]
    } else {
        join_slash(pieces.drop_last()) + seq!['/'] + pieces.last()
    }
}

/// Whether no piece holds a `'/'`.
pub open spec fn slash_free(pieces: Seq<Seq<char>>) -> bool {
    forall|i: int, j: int| 0 <= i < pieces.len() && 0 <= j < pieces[i].len() ==> pieces[i][j] != '/'
}

/// Splitting loses nothing and leaves no separator behind: the pieces hold no
/// `'/'`, and joined with `'/'` they are the string that was split.
pub proof fn law_split_then_join(s: Seq<char>)
    ensures
        split_slash(s).len() >= 1,
        slash_free(split_slash(s)),
        join_slash(split_slash(s)) == s,
    decreases s.len(),
{
    if s.len() > 0 {
        let before = split_slash(s.drop_last());
        let pieces = split_slash(s);
        law_split_then_join(s.drop_last());
        if s.last() == '/' {
            assert(pieces.drop_last() =~= before);
        } else if before.len() > 1 {
            assert(pieces.drop_last() =~= before.drop_last());
            assert(join_slash(pieces) =~= join_slash(before).push(s.last()));
        }
    }
}

/// Splitting is the only way to take a string apart at its separators:
/// whatever pieces without a `'/'` are joined, splitting gives them back.
pub proof fn law_join_then_split(pieces: Seq<Seq<char>>)
    requires
        pieces.len() >= 1,
        slash_free(pieces),
    ensures
        split_slash(join_slash(pieces)) == pieces,
    decreases pieces.len(),
{
    if pieces.len() == 1 {
        lemma_split_slash_free(Seq::<char>::empty(), pieces[0], pieces[0].len() as int);
        assert(pieces[0].take(pieces[0].len() as int) =~= pieces[0]);
    } else {
        let init = pieces.drop_last();
        let last = pieces.last();
        assert(slash_free(init)) by {
            assert forall|i: int, j: int| 0 <= i < init.len() && 0 <= j < init[i].len() implies init[i][j]
                != '/' by {}
        }
        law_join_then_split(init);
        let head = join_slash(init) + seq!['/'];
        assert(head.drop_last() =~= join_slash(init));
        lemma_split_slash_free(head, last, last.len() as int);
        assert(last.take(last.len() as int) =~= last);
    }
}

/// Appending characters other than `'/'` only lengthens the last piece.
proof fn lemma_split_slash_free(head: Seq<char>, tail: Seq<char>, n: int)
    requires
        0 <= n <= tail.len(),
        forall|j: int| 0 <= j < tail.len() ==> tail[j] != '/',
    ensures
        split_slash(head + tail.take(n)) == split_slash(head).drop_last().push(
            split_slash(head).last() + tail.take(n),
        ),
    decreases n,
{
    lemma_split_slash_nonempty(head);
    let pieces = split_slash(head);
    if n > 0 {
        lemma_split_slash_free(head, tail, n - 1);
        let whole = head + tail.take(n);
        assert(whole.drop_last() =~= head + tail.take(n - 1));
        let before = split_slash(whole.drop_last());
        assert(before.last().push(tail[n - 1]) =~= pieces.last() + tail.take(n));
    }
}

/// Splits a request path into its components.
pub fn split_path(path: &str) -> (components: Vec<String>)
    ensures
        components.deep_view() == path_components(path@),
{
    let n = path.unicode_len();
    let mut pieces: Vec<String> = Vec::new();
    let mut start: usize = 0;
    let mut i: usize = 0;
    while i < n
        invariant
            n == path@.len(),
            0 <= start <= i <= n,
            split_slash(path@.take(i as int)).len() >= 1,
            pieces.deep_view() == split_slash(path@.take(i as int)).drop_last(),
            split_slash(path@.take(i as int)).last() == path@.subrange(start as int, i as int),
        decreases n - i,
    {
        let c = path.get_char(i);
        proof {
            let now = path@.take(i as int);
            let next = path@.take(i + 1);
            assert(next.drop_last() =~= now);
            lemma_split_slash_nonempty(next);
        }
        if c == '/' {
            let piece = path.substring_char(start, i).to_owned();
            pieces.push(piece);
            proof {
                let now = split_slash(path@.take(i as int));
                assert(now =~= now.drop_last().push(now.last()));
            }
            start = i + 1;
        }
        i = i + 1;
    }
    let piece = path.substring_char(start, n).to_owned();
    pieces.push(piece);
    proof {
        assert(path@.take(n as int) =~= path@);
        let all = split_slash(path@);
        assert(all =~= all.drop_last().push(all.last()));
    }
    // Leave out the piece before the first separator.
    pieces.remove(0);
    pieces
}

/// What is to be done with a request.
#[derive(Debug)]
pub enum Route<'a, S> {
    /// Take the request body as the upload of the stream `name`.
    Upload { name: String },
    /// Attach a consumer for `format` to the live stream `stream`.
    Download { stream: &'a S, format: String },
    /// A download names a stream that is not live.
    UnknownStream,
    /// The method is not served, or the path lacks a component.
    Reject,
}

/// A route with its names as sequences of characters.
pub enum RouteView<S> {
    Upload { name: Seq<char> },
    Download { stream: S, format: Seq<char> },
    UnknownStream,
    Reject,
}

impl<'a, S> View for Route<'a, S> {
    type V = RouteView<S>;

    open spec fn view(&self) -> RouteView<S> {
        match *self {
            Route::Upload { name } => RouteView::Upload { name: name@ },
            Route::Download { stream, format } => RouteView::Download { stream: *stream, format: format@ },
            Route::UnknownStream => RouteView::UnknownStream,
            Route::Reject => RouteView::Reject,
        }
    }
}

/// The route of a request, given the live streams.
///
/// `PUT` and `POST` upload the stream named by the first component of the
/// path. `GET` downloads from the stream named by the first component, in the
/// format named by the second. Components after these are not looked at.
pub open spec fn route_of<S>(streams: Map<Seq<char>, S>, method: Method, path: Seq<char>) -> RouteView<S> {
    let components = path_components(path);
    match method {
        Method::Put | Method::Post => {
            if components.len() >= 1 {
                RouteView::Upload { name: components[0] }
            } else {
                RouteView::Reject
            }
        },
        Method::Get => {
            if components.len() < 2 {
                RouteView::Reject
            } else if streams.contains_key(components[0]) {
                RouteView::Download { stream: streams[components[0]], format: components[1] }
            } else {
                RouteView::UnknownStream
            }
        },
        Method::Other => RouteView::Reject,
    }
}

/// The content type that a response announces.
#[derive(Clone, Copy, Debug, PartialEq, Eq, Structural)]
pub enum ContentType {
    /// `text/html`
    TextHtml,
    /// `video/mp4`
    VideoMp4,
}

/// The head of the response to a request.
#[derive(Clone, Copy, Debug, PartialEq, Eq, Structural)]
pub struct Reply {
    /// The status code.
    pub status: u16,
    /// The content type, where a body follows.
    pub content_type: Option<ContentType>,
}

/// The head of the response to a request with this route: an upload and a
/// download are accepted, and say what their body is; a download from a
/// stream that is not live finds nothing; anything else is a bad request.
pub open spec fn reply_of<S>(route: RouteView<S>) -> Reply {
    match route {
        RouteView::Upload { .. } => Reply { status: 200, content_type: Some(ContentType::TextHtml) },
        RouteView::Download { .. } => Reply { status: 200, content_type: Some(ContentType::VideoMp4) },
        RouteView::UnknownStream => Reply { status: 404, content_type: None },
        RouteView::Reject => Reply { status: 400, content_type: None },
    }
}

impl<'a, S> Route<'a, S> {
    /// The head of the response to a request with this route.
    pub fn reply(&self) -> (reply: Reply)
        ensures
            reply == reply_of(self@),
    {
        match self {
            Route::Upload { .. } => Reply { status: 200, content_type: Some(ContentType::TextHtml) },
            Route::Download { .. } => Reply { status: 200, content_type: Some(ContentType::VideoMp4) },
            Route::UnknownStream => Reply { status: 404, content_type: None },
            Route::Reject => Reply { status: 400, content_type: None },
        }
    }
}

/// `create` was asked for a name that a live stream has.
#[derive(Clone, Copy, Debug, PartialEq, Eq, Structural)]
pub enum RegistryError {
    AlreadyExists,
}

/// The head of the response to an upload under a name that a live stream
/// has: a conflict.
pub open spec fn conflict_of(error: RegistryError) -> Reply {
    Reply { status: 409, content_type: None }
}

/// The head of the response to a download that could not be attached: an
/// unknown format is not found, anything else is a failure of the server.
pub open spec fn refusal_of(error: AttachErrorView) -> Reply {
    match error {
        AttachErrorView::UnknownFormat => Reply { status: 404, content_type: None },
        AttachErrorView::Exhausted => Reply { status: 503, content_type: None },
        _ => Reply { status: 500, content_type: None },
    }
}

/// The head of the response to an upload under a name that a live stream
/// has.
pub fn conflict(error: RegistryError) -> (reply: Reply)
    ensures
        reply == conflict_of(error),
{
    Reply { status: 409, content_type: None }
}

/// The head of the response to a download that could not be attached.
pub fn refusal(error: &AttachError) -> (reply: Reply)
    ensures
        reply == refusal_of(error@),
{
    match error {
        AttachError::UnknownFormat => Reply { status: 404, content_type: None },
        AttachError::Exhausted => Reply { status: 503, content_type: None },
        _ => Reply { status: 500, content_type: None },
    }
}

/// One live stream under its name.
#[derive(Debug)]
pub struct Entry<S> {
    pub name: String,
    pub stream: S,
}

/// The registry of live streams and the routing of requests to them.
///
/// `S` is whatever the driver keeps per stream, typically a shared handle of
/// a [`crate::streams::Stream`].
#[derive(Debug)]
pub struct HttpHandler<S> {
    streams: Vec<Entry<S>>,
}

impl<S> HttpHandler<S> {
    /// The entries as pairs of name and stream, in the order of creation.
    pub closed spec fn entries(&self) -> Seq<(Seq<char>, S)> {
        Seq::new(self.streams.len() as nat, |i: int| (self.streams[i].name@, self.streams[i].stream))
    }

    /// No name occurs twice.
    pub closed spec fn wf(&self) -> bool {
        forall|i: int, j: int|
            0 <= i < j < self.streams.len() ==> self.streams[i].name@ != self.streams[j].name@
    }

    /// Whether a stream is live under `name`.
    pub closed spec fn contains(&self, name: Seq<char>) -> bool {
        exists|i: int| 0 <= i < self.streams.len() && #[trigger] self.streams[i].name@ == name
    }

    /// The stream that is live under `name`.
    pub closed spec fn stream_of(&self, name: Seq<char>) -> S
        recommends
            self.contains(name),
    {
        let i = choose|i: int| 0 <= i < self.streams.len() && #[trigger] self.streams[i].name@ == name;
        self.streams[i].stream
    }

    /// An empty registry.
    pub fn new() -> (handler: Self)
        ensures
            handler.wf(),
            handler@ == Map::<Seq<char>, S>::empty(),
    {
        let handler = HttpHandler { streams: Vec::new() };
        handler
    }

    fn find(&self, name: &String) -> (found: Option<usize>)
        requires
            self.wf(),
        ensures
            match found {
                Some(i) => i < self.streams.len() && self.streams[i as int].name@ == name@,
                None => !self.contains(name@),
            },
    {
        let mut i: usize = 0;
        while i < self.streams.len()
            invariant
                i <= self.streams.len(),
                forall|j: int| 0 <= j < i ==> self.streams[j].name@ != name@,
            decreases self.streams.len() - i,
        {
            if self.streams[i].name == *name {
                return Some(i);
            }
            i = i + 1;
        }
        None
    }

    /// Registers `stream` under `name`, unless a stream is live under that
    /// name already: then the registry stays as it is.
    pub fn create(&mut self, name: String, stream: S) -> (result: Result<(), RegistryError>)
        requires
            old(self).wf(),
        ensures
            final(self).wf(),
            old(self)@.contains_key(name@) ==> result == Err::<(), RegistryError>(
                RegistryError::AlreadyExists,
            ) && final(self)@ == old(self)@,
            !old(self)@.contains_key(name@) ==> result == Ok::<(), RegistryError>(())
                && final(self)@ == old(self)@.insert(name@, stream),
    {
        match self.find(&name) {
            Some(_) => Err(RegistryError::AlreadyExists),
            None => {
                let ghost before = *self;
                self.streams.push(Entry { name, stream });
                proof {
                    assert forall|k: Seq<char>| #[trigger] self.contains(k) <==> (before.contains(k) || k == name@) by {
                        if before.contains(k) {
                            let i = choose|i: int| 0 <= i < before.streams.len() && #[trigger] before.streams[i].name@ == k;
                            assert(self.streams[i].name@ == k);
                        }
                        if k == name@ {
                            assert(self.streams[before.streams.len() as int].name@ == k);
                        }
                    }
                    assert forall|k: Seq<char>| before.contains(k) implies #[trigger] self.stream_of(k) == before.stream_of(k) by {
                        let i = choose|i: int| 0 <= i < before.streams.len() && #[trigger] before.streams[i].name@ == k;
                        assert(self.streams[i].name@ == k);
                    }
                }
                Ok(())
            },
        }
    }

    /// The stream that is live under `name`, if there is one.
    pub fn lookup(&self, name: &str) -> (found: Option<&S>)
        requires
            self.wf(),
        ensures
            match found {
                Some(stream) => self@.contains_key(name@) && *stream == self@[name@],
                None => !self@.contains_key(name@),
            },
    {
        let key = name.to_owned();
        match self.find(&key) {
            Some(i) => Some(&self.streams[i].stream),
            None => None,
        }
    }

    /// Takes the stream that is live under `name` out of the registry and
    /// returns it; the name is free again. Without such a stream nothing
    /// changes.
    pub fn remove(&mut self, name: &str) -> (removed: Option<S>)
        requires
            old(self).wf(),
        ensures
            final(self).wf(),
            final(self)@ == old(self)@.remove(name@),
            match removed {
                Some(stream) => old(self)@.contains_key(name@) && stream == old(self)@[name@],
                None => !old(self)@.contains_key(name@),
            },
    {
        let key = name.to_owned();
        match self.find(&key) {
            Some(i) => {
                let ghost before = *self;
                let entry = self.streams.remove(i);
                proof {
                    assert forall|k: Seq<char>| #[trigger] self.contains(k) <==> (before.contains(k) && k != name@) by {
                        if before.contains(k) && k != name@ {
                            let b = choose|b: int| 0 <= b < before.streams.len() && #[trigger] before.streams[b].name@ == k;
                            let a = if b < i { b } else { b - 1 };
                            assert(self.streams[a].name@ == k);
                        }
                    }
                    assert forall|k: Seq<char>| self.contains(k) implies #[trigger] self.stream_of(k) == before.stream_of(k) by {}
                }
                Some(entry.stream)
            },
            None => None,
        }
    }

    /// Decides what is to be done with a request for `path` by `method`.
    pub fn handle(&self, method: Method, path: &str) -> (route: Route<'_, S>)
        requires
            self.wf(),
        ensures
            route@ == route_of(self@, method, path@),
    {
        let components = split_path(path);
        match method {
            Method::Put | Method::Post => {
                if components.len() >= 1 {
                    Route::Upload { name: components[0].clone() }
                } else {
                    Route::Reject
                }
            },
            Method::Get => {
                if components.len() < 2 {
                    Route::Reject
                } else {
                    match self.lookup(components[0].as_str()) {
                        Some(stream) => Route::Download { stream, format: components[1].clone() },
                        None => Route::UnknownStream,
                    }
                }
            },
            Method::Other => Route::Reject,
        }
    }
}

impl<S> View for HttpHandler<S> {
    type V = Map<Seq<char>, S>;

    /// The registry as a map from the names of the live streams to the
    /// streams.
    closed spec fn view(&self) -> Map<Seq<char>, S> {
        Map::new(|name: Seq<char>| self.contains(name), |name: Seq<char>| self.stream_of(name))
    }
}

} // verus!
