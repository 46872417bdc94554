use vstd::prelude::*;

use crate::store::Reply;

verus! {

/// The wire form of a reply, as the bridge to the embedding UI carries it:
/// a numeric reply kind, the request id the reply answers (`0` for the
/// unsolicited poller event), and an optional string payload.
pub struct ReplyStruct {
    pub ty: u8,
    pub req_id: u64,
    pub data: String,
}

impl ReplyStruct {
    /// A wire reply that carries no payload.
    pub fn with_req_id(ty: u8, req_id: u64) -> (r: ReplyStruct)
        ensures
            r.ty == ty,
            r.req_id == req_id,
            r.data@ == Seq::<char>::empty(),
    {
        ReplyStruct { ty, req_id, data: String::new() }
    }

    /// A wire reply with a string payload.
    pub fn with_data(ty: u8, req_id: u64, data: String) -> (r: ReplyStruct)
        ensures
            r.ty == ty,
            r.req_id == req_id,
            r.data == data,
    {
        ReplyStruct { ty, req_id, data }
    }
}

/// How a reply and its wire form correspond: each variant has its own kind
/// number, carries its request id, and its payload if it has one.
pub open spec fn reply_matches_struct(reply: Reply, r: ReplyStruct) -> bool {
    match reply {
        Reply::Initialized(q) => r.ty == 0 && r.req_id == q && r.data@ == Seq::<char>::empty(),
        Reply::StartedWatching(q, id) => r.ty == 1 && r.req_id == q && r.data@ == id@,
        Reply::StoppedWatching(q, id) => r.ty == 2 && r.req_id == q && r.data@ == id@,
        Reply::FailedRequest(q, msg) => r.ty == 3 && r.req_id == q && r.data@ == msg@,
        Reply::UpdatedScores => r.ty == 4 && r.req_id == 0 && r.data@ == Seq::<char>::empty(),
    }
}

/// Marshals a reply into its wire form.
pub fn reply_to_struct(reply: Reply) -> (r: ReplyStruct)
    ensures
        reply_matches_struct(reply, r),
{
    match reply {
        Reply::Initialized(req_id) => ReplyStruct::with_req_id(0, req_id),
        Reply::StartedWatching(req_id, id) => ReplyStruct::with_data(1, req_id, id),
        Reply::StoppedWatching(req_id, id) => ReplyStruct::with_data(2, req_id, id),
        Reply::FailedRequest(req_id, msg) => ReplyStruct::with_data(3, req_id, msg),
        Reply::UpdatedScores => ReplyStruct::with_req_id(4, 0),
    }
}

/// The queue of replies the embedding UI has not picked up yet.  The
/// embedding program guards it with its own lock.
pub struct Replies {
    replies: Vec<ReplyStruct>,
}

impl View for Replies {
    type V = Seq<ReplyStruct>;

    closed spec fn view(&self) -> Seq<ReplyStruct> {
        self.replies@
    }
}

impl Replies {
    /// An empty queue.
    pub fn new() -> (r: Replies)
        ensures
            r@ == Seq::<ReplyStruct>::empty(),
    {
        Replies { replies: Vec::new() }
    }
}

/// Appends the wire form of `reply` to the queue.
pub fn post(replies: &mut Replies, reply: Reply)
    ensures
        final(replies)@.len() == old(replies)@.len() + 1,
        final(replies)@.drop_last() == old(replies)@,
        reply_matches_struct(reply, final(replies)@.last()),
{
    let s = reply_to_struct(reply);
    replies.replies.push(s);
    proof {
        assert(replies.replies@.drop_last() =~= old(replies)@);
    }
}

/// The queued replies, oldest first.
pub fn replies_read(replies: &Replies) -> (r: &Vec<ReplyStruct>)
    ensures
        r@ == replies@,
{
    &replies.replies
}

/// `s` without every entry that answers `req_id`, order kept.
pub open spec fn without_req_id(s: Seq<ReplyStruct>, req_id: u64) -> Seq<ReplyStruct>
    decreases s.len(),
{
    if s.len() == 0 {
        Seq::empty()
    } else {
        let prefix = without_req_id(s.drop_last(), req_id);
        if s.last().req_id != req_id {
            prefix.push(s.last())
        } else {
            prefix
        }
    }
}

/// Drops every queued reply that answers `req_id`; the bridge calls this
/// once the UI has handled the reply.
pub fn handled_reply(replies: &mut Replies, req_id: u64)
    ensures
        final(replies)@ == without_req_id(old(replies)@, req_id),
{
    let ghost orig = replies.replies@;
    let mut kept: Vec<ReplyStruct> = Vec::new();
    proof {
        assert(orig.subrange(0, 0) =~= Seq::<ReplyStruct>::empty());
    }
    while replies.replies.len() > 0
        invariant
            replies.replies@.len() <= orig.len(),
            replies.replies@ == orig.subrange(
                orig.len() - replies.replies@.len(),
                orig.len() as int,
            ),
            kept@ == without_req_id(orig.subrange(0, orig.len() - replies.replies@.len()), req_id),
        decreases replies.replies@.len(),
    {
        let ghost i = orig.len() - replies.replies@.len();
        let x = replies.replies.remove(0);
        proof {
            assert(x == orig[i]);
            assert(replies.replies@ =~= orig.subrange(i + 1, orig.len() as int));
            let cur = orig.subrange(0, i + 1);
            assert(cur.drop_last() =~= orig.subrange(0, i as int));
            assert(cur.last() == orig[i]);
        }
        if x.req_id != req_id {
            kept.push(x);
        }
    }
    replies.replies = kept;
    proof {
        assert(orig.subrange(0, orig.len() as int) =~= orig);
    }
}

} // verus!
