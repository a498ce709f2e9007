//! The atomic operations as scripts that a Redis-compatible server runs.
//!
//! A worker is known to the scripts by the key of its own queue, which is what
//! they write into `owners`.
use vstd::prelude::*;

verus! {

/// `KEYS`: queue, running, processed, the worker's queue, owners.
/// `ARGV`: the deadline of the reservation.
pub const RESERVE: &'static str = "local queue_key = KEYS[1]
local running_key = KEYS[2]
local processed_key = KEYS[3]
local worker_queue_key = KEYS[4]
local owners_key = KEYS[5]

local deadline = ARGV[1]

local item = redis.call('rpop', queue_key)
while item do
  if redis.call('sismember', processed_key, item) == 0 then
    redis.call('zadd', running_key, deadline, item)
    redis.call('hset', owners_key, item, worker_queue_key)
    redis.call('rpush', worker_queue_key, item)
    return item
  end
  item = redis.call('rpop', queue_key)
end

return nil
";

/// `KEYS`: running, completed, the worker's queue, owners.
/// `ARGV`: now, the timeout in seconds.
pub const RESERVE_LOST: &'static str = "local running_key = KEYS[1]
local completed_key = KEYS[2]
local worker_queue_key = KEYS[3]
local owners_key = KEYS[4]

local now = tonumber(ARGV[1])
local timeout = tonumber(ARGV[2])

local lost = redis.call('zrangebyscore', running_key, '-inf', now)
for _, item in ipairs(lost) do
  if redis.call('sismember', completed_key, item) == 0 then
    redis.call('zadd', running_key, now + timeout, item)
    redis.call('hset', owners_key, item, worker_queue_key)
    redis.call('rpush', worker_queue_key, item)
    return item
  end
end

return nil
";

/// `KEYS`: running, processed, owners, error reports, the worker's queue.
/// `ARGV`: the item, the error, the seconds to keep the error.
pub const ACKNOWLEDGE: &'static str = "local running_key = KEYS[1]
local processed_key = KEYS[2]
local owners_key = KEYS[3]
local error_reports_key = KEYS[4]
local worker_queue_key = KEYS[5]

local item = ARGV[1]
local error = ARGV[2]
local ttl = ARGV[3]

if redis.call('hget', owners_key, item) ~= worker_queue_key then
  return 0
end

redis.call('zrem', running_key, item)
redis.call('hdel', owners_key, item)
redis.call('sadd', processed_key, item)

if error ~= '' then
  redis.call('hset', error_reports_key, item, error)
  redis.call('expire', error_reports_key, ttl)
end

return 1
";

/// `KEYS`: processed, requeue counts, queue, running, the worker's queue,
/// owners, error reports.
/// `ARGV`: the cap for one item, the cap for all, the item, the offset.
pub const REQUEUE: &'static str = "local processed_key = KEYS[1]
local requeues_count_key = KEYS[2]
local queue_key = KEYS[3]
local running_key = KEYS[4]
local worker_queue_key = KEYS[5]
local owners_key = KEYS[6]
local error_reports_key = KEYS[7]

local max_requeues = tonumber(ARGV[1])
local global_max_requeues = tonumber(ARGV[2])
local item = ARGV[3]
local offset = tonumber(ARGV[4])

local requeues = tonumber(redis.call('hget', requeues_count_key, item)) or 0
if requeues >= max_requeues then
  return 0
end

local global_requeues = tonumber(redis.call('hget', requeues_count_key, '___total___')) or 0
if global_requeues >= global_max_requeues then
  return 0
end

redis.call('hincrby', requeues_count_key, item, 1)
redis.call('hincrby', requeues_count_key, '___total___', 1)
redis.call('zrem', running_key, item)
redis.call('hdel', owners_key, item)

local length = redis.call('llen', queue_key)
if length > offset then
  local pivot = redis.call('lindex', queue_key, length - offset)
  redis.call('linsert', queue_key, 'BEFORE', pivot, item)
else
  redis.call('lpush', queue_key, item)
end

return 1
";

/// `KEYS`: running, queue, owners.
/// `ARGV`: the item.
pub const RELEASE: &'static str = "local running_key = KEYS[1]
local queue_key = KEYS[2]
local owners_key = KEYS[3]

local item = ARGV[1]

if redis.call('zrem', running_key, item) == 1 then
  redis.call('hdel', owners_key, item)
  redis.call('rpush', queue_key, item)
  return 1
end

return 0
";

/// `KEYS`: running, owners, the worker's queue.
/// `ARGV`: the item, the new deadline.
pub const HEARTBEAT: &'static str = "local running_key = KEYS[1]
local owners_key = KEYS[2]
local worker_queue_key = KEYS[3]

local item = ARGV[1]
local deadline = ARGV[2]

if redis.call('hget', owners_key, item) == worker_queue_key then
  redis.call('zadd', running_key, deadline, item)
  return 1
end

return 0
";

/// The six atomic operations.
#[derive(Debug, Clone, Copy, PartialEq, Eq, Structural)]
pub enum Script {
    Reserve,
    ReserveLost,
    Acknowledge,
    Requeue,
    Release,
    Heartbeat,
}

impl Script {
    pub open spec fn spec_name(&self) -> Seq<char> {
        match self {
            Script::Reserve => "reserve"@,
            Script::ReserveLost => "reserve_lost"@,
            Script::Acknowledge => "acknowledge"@,
            Script::Requeue => "requeue"@,
            Script::Release => "release"@,
            Script::Heartbeat => "heartbeat"@,
        }
    }

    pub open spec fn spec_content(&self) -> Seq<char> {
        match self {
            Script::Reserve => RESERVE@,
            Script::ReserveLost => RESERVE_LOST@,
            Script::Acknowledge => ACKNOWLEDGE@,
            Script::Requeue => REQUEUE@,
            Script::Release => RELEASE@,
            Script::Heartbeat => HEARTBEAT@,
        }
    }

    /// The name of the operation.
    pub fn name(&self) -> (name: &'static str)
        ensures
            name@ == self.spec_name(),
    {
        match self {
            Script::Reserve => "reserve",
            Script::ReserveLost => "reserve_lost",
            Script::Acknowledge => "acknowledge",
            Script::Requeue => "requeue",
            Script::Release => "release",
            Script::Heartbeat => "heartbeat",
        }
    }

    /// The text of the script.
    pub fn content(&self) -> (content: &'static str)
        ensures
            content@ == self.spec_content(),
    {
        match self {
            Script::Reserve => RESERVE,
            Script::ReserveLost => RESERVE_LOST,
            Script::Acknowledge => ACKNOWLEDGE,
            Script::Requeue => REQUEUE,
            Script::Release => RELEASE,
            Script::Heartbeat => HEARTBEAT,
        }
    }
}

} // verus!
