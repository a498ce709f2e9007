//! The atomic operations as values: what a worker asks of the store, and what
//! the store answers.
use super::scripts::Script;
use super::state::{OperationView, ReplyView};
use super::text::{decimal, seconds, to_decimal, to_seconds};
use super::{key_of, views, Base};
use vstd::prelude::*;

verus! {

/// What an atomic operation tells its caller.
#[derive(Debug)]
pub enum Reply {
    /// Nothing.
    Nil,
    /// A return code.
    Int(i64),
    /// An item, in UTF-8.
    Bulk(Vec<u8>),
}

impl View for Reply {
    type V = ReplyView;

    open spec fn view(&self) -> ReplyView {
        match self {
            Reply::Nil => ReplyView::Nil,
            Reply::Int(code) => ReplyView::Int(*code),
            Reply::Bulk(data) => ReplyView::Bulk(data@),
        }
    }
}

/// An atomic operation that a worker asks of the store.
#[derive(Debug)]
pub enum Operation {
    /// Take the next item that waits. The reservation lasts until `deadline`,
    /// in microseconds since the epoch.
    Reserve { deadline: u64 },
    /// Take over a reservation that is lost at `now`, for `timeout` seconds.
    ReserveLost { now: u64, timeout: usize },
    /// End the reservation of `item`. A non-empty `error` is kept for `ttl`
    /// seconds.
    Acknowledge { item: String, error: String, ttl: u64 },
    /// Put `item` back, `offset` items from the tail of the queue.
    Requeue { max_requeues: usize, global_max_requeues: usize, item: String, offset: u64 },
    /// Give `item` up without counting a requeue.
    Release { item: String },
    /// Move the deadline of `item`.
    Heartbeat { item: String, deadline: u64 },
}

impl View for Operation {
    type V = OperationView;

    open spec fn view(&self) -> OperationView {
        match self {
            Operation::Reserve { deadline } => OperationView::Reserve { deadline: *deadline },
            Operation::ReserveLost { now, timeout } => OperationView::ReserveLost {
                now: *now,
                timeout: *timeout,
            },
            Operation::Acknowledge { item, error, ttl } => OperationView::Acknowledge {
                item: item@,
                error: error@,
                ttl: *ttl,
            },
            Operation::Requeue {
                max_requeues,
                global_max_requeues,
                item,
                offset,
            } => OperationView::Requeue {
                max_requeues: *max_requeues,
                global_max_requeues: *global_max_requeues,
                item: item@,
                offset: *offset,
            },
            Operation::Release { item } => OperationView::Release { item: item@ },
            Operation::Heartbeat { item, deadline } => OperationView::Heartbeat {
                item: item@,
                deadline: *deadline,
            },
        }
    }
}

/// The key of the worker's own queue.
pub open spec fn worker_queue_key(build_id: Seq<char>, worker: Seq<char>) -> Seq<char> {
    key_of(build_id, seq!["worker"@, worker, "queue"@])
}

/// The key of the part of the build's state that is called `name`.
pub open spec fn part_key(build_id: Seq<char>, name: Seq<char>) -> Seq<char> {
    key_of(build_id, seq![name])
}

impl OperationView {
    /// The script that performs the operation.
    pub open spec fn script(self) -> Script {
        match self {
            OperationView::Reserve { .. } => Script::Reserve,
            OperationView::ReserveLost { .. } => Script::ReserveLost,
            OperationView::Acknowledge { .. } => Script::Acknowledge,
            OperationView::Requeue { .. } => Script::Requeue,
            OperationView::Release { .. } => Script::Release,
            OperationView::Heartbeat { .. } => Script::Heartbeat,
        }
    }

    /// The keys that the script is given, for `worker` in the build `build_id`.
    pub open spec fn keys(self, build_id: Seq<char>, worker: Seq<char>) -> Seq<Seq<char>> {
        match self {
            OperationView::Reserve { .. } => seq![
                part_key(build_id, "queue"@),
                part_key(build_id, "running"@),
                part_key(build_id, "processed"@),
                worker_queue_key(build_id, worker),
                part_key(build_id, "owners"@),
            ],
            OperationView::ReserveLost { .. } => seq![
                part_key(build_id, "running"@),
                part_key(build_id, "completed"@),
                worker_queue_key(build_id, worker),
                part_key(build_id, "owners"@),
            ],
            OperationView::Acknowledge { .. } => seq![
                part_key(build_id, "running"@),
                part_key(build_id, "processed"@),
                part_key(build_id, "owners"@),
                part_key(build_id, "error-reports"@),
                worker_queue_key(build_id, worker),
            ],
            OperationView::Requeue { .. } => seq![
                part_key(build_id, "processed"@),
                part_key(build_id, "requeues-count"@),
                part_key(build_id, "queue"@),
                part_key(build_id, "running"@),
                worker_queue_key(build_id, worker),
                part_key(build_id, "owners"@),
                part_key(build_id, "error-reports"@),
            ],
            OperationView::Release { .. } => seq![
                part_key(build_id, "running"@),
                part_key(build_id, "queue"@),
                part_key(build_id, "owners"@),
            ],
            OperationView::Heartbeat { .. } => seq![
                part_key(build_id, "running"@),
                part_key(build_id, "owners"@),
                worker_queue_key(build_id, worker),
            ],
        }
    }

    /// The arguments that the script is given. Times are written in seconds,
    /// counts in decimal.
    pub open spec fn args(self) -> Seq<Seq<char>> {
        match self {
            OperationView::Reserve { deadline } => seq![seconds(deadline as nat)],
            OperationView::ReserveLost { now, timeout } => seq![
                seconds(now as nat),
                decimal(timeout as nat),
            ],
            OperationView::Acknowledge { item, error, ttl } => seq![item, error, decimal(ttl as nat)],
            OperationView::Requeue { max_requeues, global_max_requeues, item, offset } => seq![
                decimal(max_requeues as nat),
                decimal(global_max_requeues as nat),
                item,
                decimal(offset as nat),
            ],
            OperationView::Release { item } => seq![item],
            OperationView::Heartbeat { item, deadline } => seq![item, seconds(deadline as nat)],
        }
    }
}

/// A script with the keys and the arguments to run it with.
#[derive(Debug)]
pub struct ScriptCall {
    pub script: Script,
    pub keys: Vec<String>,
    pub args: Vec<String>,
}

fn key_of_part(base: &Base, name: &str) -> (key: String)
    ensures
        key@ == part_key(base.build_id@, name@),
{
    let parts = [name];
    assert(super::texts(parts@) =~= seq![name@]);
    base.key(parts.as_slice())
}

fn key_of_worker_queue(base: &Base, worker_id: &str) -> (key: String)
    ensures
        key@ == worker_queue_key(base.build_id@, worker_id@),
{
    let parts = ["worker", worker_id, "queue"];
    assert(super::texts(parts@) =~= seq!["worker"@, worker_id@, "queue"@]);
    base.key(parts.as_slice())
}

impl Operation {
    /// The script that performs the operation.
    pub fn script(&self) -> (script: Script)
        ensures
            script == self@.script(),
    {
        match self {
            Operation::Reserve { .. } => Script::Reserve,
            Operation::ReserveLost { .. } => Script::ReserveLost,
            Operation::Acknowledge { .. } => Script::Acknowledge,
            Operation::Requeue { .. } => Script::Requeue,
            Operation::Release { .. } => Script::Release,
            Operation::Heartbeat { .. } => Script::Heartbeat,
        }
    }

    /// The keys that the script is given, for the worker `worker_id` of the
    /// build of `base`.
    pub fn keys(&self, base: &Base, worker_id: &str) -> (keys: Vec<String>)
        ensures
            views(keys@) == self@.keys(base.build_id@, worker_id@),
    {
        let mut keys: Vec<String> = Vec::new();
        match self {
            Operation::Reserve { .. } => {
                keys.push(key_of_part(base, "queue"));
                keys.push(key_of_part(base, "running"));
                keys.push(key_of_part(base, "processed"));
                keys.push(key_of_worker_queue(base, worker_id));
                keys.push(key_of_part(base, "owners"));
            },
            Operation::ReserveLost { .. } => {
                keys.push(key_of_part(base, "running"));
                keys.push(key_of_part(base, "completed"));
                keys.push(key_of_worker_queue(base, worker_id));
                keys.push(key_of_part(base, "owners"));
            },
            Operation::Acknowledge { .. } => {
                keys.push(key_of_part(base, "running"));
                keys.push(key_of_part(base, "processed"));
                keys.push(key_of_part(base, "owners"));
                keys.push(key_of_part(base, "error-reports"));
                keys.push(key_of_worker_queue(base, worker_id));
            },
            Operation::Requeue { .. } => {
                keys.push(key_of_part(base, "processed"));
                keys.push(key_of_part(base, "requeues-count"));
                keys.push(key_of_part(base, "queue"));
                keys.push(key_of_part(base, "running"));
                keys.push(key_of_worker_queue(base, worker_id));
                keys.push(key_of_part(base, "owners"));
                keys.push(key_of_part(base, "error-reports"));
            },
            Operation::Release { .. } => {
                keys.push(key_of_part(base, "running"));
                keys.push(key_of_part(base, "queue"));
                keys.push(key_of_part(base, "owners"));
            },
            Operation::Heartbeat { .. } => {
                keys.push(key_of_part(base, "running"));
                keys.push(key_of_part(base, "owners"));
                keys.push(key_of_worker_queue(base, worker_id));
            },
        }
        assert(views(keys@) =~= self@.keys(base.build_id@, worker_id@));
        keys
    }

    /// The arguments that the script is given.
    pub fn args(&self) -> (args: Vec<String>)
        ensures
            views(args@) == self@.args(),
    {
        let mut args: Vec<String> = Vec::new();
        match self {
            Operation::Reserve { deadline } => {
                args.push(to_seconds(*deadline));
            },
            Operation::ReserveLost { now, timeout } => {
                args.push(to_seconds(*now));
                args.push(to_decimal(*timeout as u64));
            },
            Operation::Acknowledge { item, error, ttl } => {
                args.push(item.clone());
                args.push(error.clone());
                args.push(to_decimal(*ttl));
            },
            Operation::Requeue { max_requeues, global_max_requeues, item, offset } => {
                args.push(to_decimal(*max_requeues as u64));
                args.push(to_decimal(*global_max_requeues as u64));
                args.push(item.clone());
                args.push(to_decimal(*offset));
            },
            Operation::Release { item } => {
                args.push(item.clone());
            },
            Operation::Heartbeat { item, deadline } => {
                args.push(item.clone());
                args.push(to_seconds(*deadline));
            },
        }
        assert(views(args@) =~= self@.args());
        args
    }

    /// The script that performs the operation for the worker `worker_id` of
    /// the build of `base`, with its keys and arguments.
    pub fn call(&self, base: &Base, worker_id: &str) -> (call: ScriptCall)
        ensures
            call.script == self@.script(),
            views(call.keys@) == self@.keys(base.build_id@, worker_id@),
            views(call.args@) == self@.args(),
    {
        ScriptCall { script: self.script(), keys: self.keys(base, worker_id), args: self.args() }
    }
}

} // verus!
