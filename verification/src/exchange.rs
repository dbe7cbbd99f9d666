//! The per-request context that the pipeline's stages share: what the client
//! sent, the key-value bag that stages pass facts through, the reply so far,
//! and the trail of stage logic that has run.

use vstd::hash_map::StringHashMap;
use vstd::prelude::*;
use vstd::utf8::{encode_utf8, encode_utf8_decode_utf8};

verus! {

/// Whether two strings hold the same characters.
pub fn same_text(a: &str, b: &str) -> (same: bool)
    ensures
        same == (a@ == b@),
{
    let x = a.as_bytes();
    let y = b.as_bytes();
    proof {
        encode_utf8_decode_utf8(a@);
        encode_utf8_decode_utf8(b@);
    }
    if x.len() != y.len() {
        return false;
    }
    let mut i: usize = 0;
    while i < x.len()
        invariant
            x@ == encode_utf8(a@),
            y@ == encode_utf8(b@),
            x@.len() == y@.len(),
            0 <= i <= x@.len(),
            forall|k: int| 0 <= k < i ==> x@[k] == y@[k],
        decreases x@.len() - i,
    {
        if x[i] != y[i] {
            return false;
        }
        i += 1;
    }
    assert(x@ =~= y@);
    true
}

/// A cookie that the client presented.
#[derive(Debug, Clone, PartialEq, Eq)]
pub struct Cookie {
    pub name: String,
    pub value: String,
}

impl View for Cookie {
    type V = (Seq<char>, Seq<char>);

    open spec fn view(&self) -> (Seq<char>, Seq<char>) {
        (self.name@, self.value@)
    }
}

/// The cookies of `jar`, each as name and value.
pub open spec fn jar_view(jar: Seq<Cookie>) -> Seq<(Seq<char>, Seq<char>)> {
    Seq::new(jar.len(), |i: int| jar[i]@)
}

/// The value of the first cookie called `name`, if there is one.
pub open spec fn cookie_value(jar: Seq<(Seq<char>, Seq<char>)>, name: Seq<char>) -> Option<
    Seq<char>,
>
    decreases jar.len(),
{
    if jar.len() == 0 {
        None
    } else if jar[0].0 == name {
        Some(jar[0].1)
    } else {
        cookie_value(jar.drop_first(), name)
    }
}

/// Looks `name` up in the cookie jar; the first cookie of that name counts.
pub fn find_cookie<'a>(jar: &'a Vec<Cookie>, name: &str) -> (value: Option<&'a String>)
    ensures
        value is Some <==> cookie_value(jar_view(jar@), name@) is Some,
        value matches Some(v) ==> cookie_value(jar_view(jar@), name@) == Some(v@),
{
    let ghost whole = jar_view(jar@);
    let mut i: usize = 0;
    assert(whole.skip(0) =~= whole);
    while i < jar.len()
        invariant
            0 <= i <= jar@.len(),
            whole == jar_view(jar@),
            cookie_value(whole, name@) == cookie_value(whole.skip(i as int), name@),
        decreases jar@.len() - i,
    {
        assert(whole.skip(i as int)[0] == jar@[i as int]@);
        if same_text(jar[i].name.as_str(), name) {
            return Some(&jar[i].value);
        }
        assert(whole.skip(i as int).drop_first() =~= whole.skip(i + 1));
        i += 1;
    }
    assert(whole.skip(i as int).len() == 0);
    None
}

/// What the server answers.
#[derive(Debug, Clone, PartialEq, Eq)]
pub enum Reply {
    /// Nothing has been written yet.
    Empty,
    /// Send the client to another location (303 See Other).
    Redirect { location: String },
    /// An error, as status line and machine-readable body.
    Failure { status: u16, code: i32, msg: String },
    /// A body produced by a handler.
    Content { status: u16, body: String },
}

/// A reply, with its strings as character sequences.
pub enum ReplyView {
    Empty,
    Redirect { location: Seq<char> },
    Failure { status: u16, code: i32, msg: Seq<char> },
    Content { status: u16, body: Seq<char> },
}

impl View for Reply {
    type V = ReplyView;

    open spec fn view(&self) -> ReplyView {
        match self {
            Reply::Empty => ReplyView::Empty,
            Reply::Redirect { location } => ReplyView::Redirect { location: location@ },
            Reply::Failure { status, code, msg } => ReplyView::Failure {
                status: *status,
                code: *code,
                msg: msg@,
            },
            Reply::Content { status, body } => ReplyView::Content { status: *status, body: body@ },
        }
    }
}

impl Reply {
    /// Whether nothing has been written yet.
    pub fn is_empty(&self) -> (empty: bool)
        ensures
            empty == (self@ == ReplyView::Empty),
    {
        match self {
            Reply::Empty => true,
            _ => false,
        }
    }
}

/// A mark that a stage leaves on the trail when its logic runs.
#[derive(Debug, Clone, PartialEq, Eq)]
pub enum Mark {
    /// Entry logic of the stage with this label.
    Pre(String),
    /// Exit logic of the stage with this label.
    Post(String),
}

/// A mark, with its label as a character sequence.
pub enum MarkView {
    Pre(Seq<char>),
    Post(Seq<char>),
}

impl View for Mark {
    type V = MarkView;

    open spec fn view(&self) -> MarkView {
        match self {
            Mark::Pre(label) => MarkView::Pre(label@),
            Mark::Post(label) => MarkView::Post(label@),
        }
    }
}

/// The marks of `trail`, in order.
pub open spec fn trail_view(trail: Seq<Mark>) -> Seq<MarkView> {
    Seq::new(trail.len(), |i: int| trail[i]@)
}

/// The per-request key-value bag. It is made when the request arrives and
/// dropped when the reply is sent.
pub struct Depot {
    entries: StringHashMap<String>,
}

impl View for Depot {
    type V = Map<Seq<char>, Seq<char>>;

    closed spec fn view(&self) -> Map<Seq<char>, Seq<char>> {
        self.entries@.map_values(|value: String| value@)
    }
}

impl Depot {
    /// An empty bag.
    pub fn new() -> (depot: Depot)
        ensures
            depot@ == Map::<Seq<char>, Seq<char>>::empty(),
    {
        let depot = Depot { entries: StringHashMap::new() };
        assert(depot@ =~= Map::<Seq<char>, Seq<char>>::empty());
        depot
    }

    /// Stores `value` under `key`, in place of what was stored there.
    pub fn insert(&mut self, key: String, value: String)
        ensures
            final(self)@ == old(self)@.insert(key@, value@),
    {
        self.entries.insert(key, value);
        assert(self@ =~= old(self)@.insert(key@, value@));
    }

    /// What is stored under `key`.
    pub fn get(&self, key: &str) -> (value: Option<&String>)
        ensures
            value is Some <==> self@.contains_key(key@),
            value matches Some(v) ==> self@[key@] == v@,
    {
        self.entries.get(key)
    }
}

/// One request in flight.
pub struct Exchange {
    /// The instant at which the request arrived, in seconds since the Unix
    /// epoch. Every stage judges expiry against this one reading.
    pub now: i64,
    /// The cookies that the client presented.
    pub cookies: Vec<Cookie>,
    /// Facts that stages hand to later stages and to the handler.
    pub depot: Depot,
    /// The reply so far.
    pub reply: Reply,
    /// The stage logic that has run, in the order in which it ran.
    pub trail: Vec<Mark>,
}

/// An exchange, as stages' contracts see it.
pub struct ExchangeView {
    pub now: i64,
    pub cookies: Seq<(Seq<char>, Seq<char>)>,
    pub depot: Map<Seq<char>, Seq<char>>,
    pub reply: ReplyView,
    pub trail: Seq<MarkView>,
}

impl View for Exchange {
    type V = ExchangeView;

    open spec fn view(&self) -> ExchangeView {
        ExchangeView {
            now: self.now,
            cookies: jar_view(self.cookies@),
            depot: self.depot@,
            reply: self.reply@,
            trail: trail_view(self.trail@),
        }
    }
}

impl Exchange {
    /// The context of a request that arrived at `now` with `cookies`: empty
    /// bag, empty reply, empty trail.
    pub fn new(now: i64, cookies: Vec<Cookie>) -> (exchange: Exchange)
        ensures
            exchange@ == (ExchangeView {
                now,
                cookies: jar_view(cookies@),
                depot: Map::empty(),
                reply: ReplyView::Empty,
                trail: Seq::empty(),
            }),
    {
        let exchange = Exchange {
            now,
            cookies,
            depot: Depot::new(),
            reply: Reply::Empty,
            trail: Vec::new(),
        };
        assert(exchange@.trail =~= Seq::empty());
        exchange
    }

    /// Appends `mark` to the trail.
    pub fn record(&mut self, mark: Mark)
        ensures
            final(self)@ == (ExchangeView { trail: old(self)@.trail.push(mark@), ..old(self)@ }),
    {
        self.trail.push(mark);
        assert(self@.trail =~= old(self)@.trail.push(mark@));
    }
}

} // verus!
