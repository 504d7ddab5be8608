//! Timed, typed messages for the overlay, owned by a bounded queue.
//!
//! Time enters only as an explicit clock reading in milliseconds, so every
//! rule here — expiry, the fade curve, eviction — is a pure function of the
//! values involved. The caller reads the clock and hands it in.

use std::collections::VecDeque;
use vstd::prelude::*;

verus! {

/// Total time a notification stays visible unless another span is chosen.
pub const DEFAULT_NOTIFICATION_DURATION_MS: u64 = 3000;

/// Live notifications beyond this count evict the oldest one.
pub const MAX_LIVE_NOTIFICATIONS: usize = 5;

/// Severity of a notification.
#[derive(Clone, Copy, Debug, PartialEq, Eq, Structural)]
pub enum NotificationType {
    Info,
    Success,
    Warning,
    Error,
}

/// One transient message: its text, severity, creation instant and total
/// display duration, both in milliseconds.
#[derive(Clone, Debug)]
pub struct Notification {
    pub message: String,
    pub notification_type: NotificationType,
    pub created_at_ms: u64,
    pub duration_ms: u64,
}

impl Notification {
    /// Milliseconds since creation; a clock reading before the creation
    /// instant counts as no time passed.
    pub open spec fn elapsed_ms(&self, now_ms: u64) -> int {
        if now_ms >= self.created_at_ms {
            now_ms - self.created_at_ms
        } else {
            0
        }
    }

    /// A notification expires once more than its duration has elapsed.
    pub open spec fn expired_at(&self, now_ms: u64) -> bool {
        self.elapsed_ms(now_ms) > self.duration_ms
    }

    /// The fade curve, in thousandths of full opacity: linear fade-in over
    /// the first 500 ms, full opacity in the middle, linear fade-out over
    /// the last 500 ms of the duration, clamped to [0, 1000].
    pub open spec fn opacity_permille_at(&self, now_ms: u64) -> int {
        let e = self.elapsed_ms(now_ms);
        let d = self.duration_ms as int;
        if e < 500 {
            e * 2
        } else if e + 500 > d {
            if e >= d {
                0
            } else {
                (d - e) * 2
            }
        } else {
            1000
        }
    }

    /// A fresh notification with the default 3 s duration, created at the
    /// given clock reading.
    pub fn new(message: String, notification_type: NotificationType, now_ms: u64) -> (r: Self)
        ensures
            r == (Notification {
                message,
                notification_type,
                created_at_ms: now_ms,
                duration_ms: DEFAULT_NOTIFICATION_DURATION_MS,
            }),
    {
        Notification {
            message,
            notification_type,
            created_at_ms: now_ms,
            duration_ms: DEFAULT_NOTIFICATION_DURATION_MS,
        }
    }

    /// A fresh notification with a chosen duration.
    pub fn with_duration(
        message: String,
        notification_type: NotificationType,
        duration_ms: u64,
        now_ms: u64,
    ) -> (r: Self)
        ensures
            r == (Notification { message, notification_type, created_at_ms: now_ms, duration_ms }),
    {
        Notification { message, notification_type, created_at_ms: now_ms, duration_ms }
    }

    /// Whether the notification has outlived its duration at the given
    /// clock reading.
    pub fn is_expired(&self, now_ms: u64) -> (r: bool)
        ensures
            r == self.expired_at(now_ms),
    {
        let elapsed: u64 = if now_ms >= self.created_at_ms {
            now_ms - self.created_at_ms
        } else {
            0
        };
        elapsed > self.duration_ms
    }

    /// Current opacity in thousandths, following the fade curve.
    pub fn opacity_permille(&self, now_ms: u64) -> (r: u32)
        ensures
            r as int == self.opacity_permille_at(now_ms),
            r <= 1000,
    {
        let elapsed: u64 = if now_ms >= self.created_at_ms {
            now_ms - self.created_at_ms
        } else {
            0
        };
        if elapsed < 500 {
            (elapsed * 2) as u32
        } else if self.duration_ms < 500 || elapsed > self.duration_ms - 500 {
            if elapsed >= self.duration_ms {
                0
            } else {
                ((self.duration_ms - elapsed) * 2) as u32
            }
        } else {
            1000
        }
    }
}

/// The bounded queue of live notifications, oldest first.
pub struct NotificationManager {
    notifications: VecDeque<Notification>,
    max_notifications: usize,
}

/// The queue after appending one notification: the oldest entry is evicted
/// when the append would exceed the bound.
pub open spec fn after_push(q: Seq<Notification>, n: Notification) -> Seq<Notification> {
    if q.len() < MAX_LIVE_NOTIFICATIONS {
        q.push(n)
    } else {
        q.drop_first().push(n)
    }
}

/// The queue after dropping every notification expired at the given clock
/// reading, keeping order.
pub open spec fn retained(q: Seq<Notification>, now_ms: u64) -> Seq<Notification> {
    q.filter(|n: Notification| !n.expired_at(now_ms))
}

impl NotificationManager {
    /// The live notifications, oldest first.
    pub closed spec fn queue(&self) -> Seq<Notification> {
        self.notifications@
    }

    /// The queue never outgrows its bound, which is fixed at five.
    pub closed spec fn wf(&self) -> bool {
        self.max_notifications == MAX_LIVE_NOTIFICATIONS && self.queue().len()
            <= MAX_LIVE_NOTIFICATIONS
    }

    /// An empty queue bounded at five live entries.
    pub fn new() -> (r: Self)
        ensures
            r.wf(),
            r.queue() == Seq::<Notification>::empty(),
    {
        let r = NotificationManager {
            notifications: VecDeque::new(),
            max_notifications: MAX_LIVE_NOTIFICATIONS,
        };
        proof {
            assert(r.queue() =~= Seq::<Notification>::empty());
        }
        r
    }

    /// Appends a notification; if the queue would exceed its bound, the
    /// oldest entry is evicted regardless of expiry.
    pub fn add_notification(&mut self, notification: Notification)
        requires
            old(self).wf(),
        ensures
            final(self).wf(),
            final(self).queue() == after_push(old(self).queue(), notification),
    {
        self.notifications.push_back(notification);
        if self.notifications.len() > self.max_notifications {
            let _ = self.notifications.pop_front();
            proof {
                assert(self.notifications@ =~= after_push(old(self).queue(), notification));
            }
        }
    }

    /// Appends an informational message with the default duration.
    pub fn add_info(&mut self, message: String, now_ms: u64)
        requires
            old(self).wf(),
        ensures
            final(self).wf(),
            final(self).queue() == after_push(
                old(self).queue(),
                Notification {
                    message,
                    notification_type: NotificationType::Info,
                    created_at_ms: now_ms,
                    duration_ms: DEFAULT_NOTIFICATION_DURATION_MS,
                },
            ),
    {
        let n = Notification::new(message, NotificationType::Info, now_ms);
        self.add_notification(n);
    }

    /// Appends a success message with the default duration.
    pub fn add_success(&mut self, message: String, now_ms: u64)
        requires
            old(self).wf(),
        ensures
            final(self).wf(),
            final(self).queue() == after_push(
                old(self).queue(),
                Notification {
                    message,
                    notification_type: NotificationType::Success,
                    created_at_ms: now_ms,
                    duration_ms: DEFAULT_NOTIFICATION_DURATION_MS,
                },
            ),
    {
        let n = Notification::new(message, NotificationType::Success, now_ms);
        self.add_notification(n);
    }

    /// Appends a warning message with the default duration.
    pub fn add_warning(&mut self, message: String, now_ms: u64)
        requires
            old(self).wf(),
        ensures
            final(self).wf(),
            final(self).queue() == after_push(
                old(self).queue(),
                Notification {
                    message,
                    notification_type: NotificationType::Warning,
                    created_at_ms: now_ms,
                    duration_ms: DEFAULT_NOTIFICATION_DURATION_MS,
                },
            ),
    {
        let n = Notification::new(message, NotificationType::Warning, now_ms);
        self.add_notification(n);
    }

    /// Appends an error message with the default duration.
    pub fn add_error(&mut self, message: String, now_ms: u64)
        requires
            old(self).wf(),
        ensures
            final(self).wf(),
            final(self).queue() == after_push(
                old(self).queue(),
                Notification {
                    message,
                    notification_type: NotificationType::Error,
                    created_at_ms: now_ms,
                    duration_ms: DEFAULT_NOTIFICATION_DURATION_MS,
                },
            ),
    {
        let n = Notification::new(message, NotificationType::Error, now_ms);
        self.add_notification(n);
    }

    /// Drops every notification expired at the given clock reading,
    /// keeping the order of the rest.
    pub fn update(&mut self, now_ms: u64)
        requires
            old(self).wf(),
        ensures
            final(self).wf(),
            final(self).queue() == retained(old(self).queue(), now_ms),
    {
        let ghost orig = self.notifications@;
        let mut kept: VecDeque<Notification> = VecDeque::new();
        proof {
            reveal(Seq::filter);
            assert(orig.subrange(0, 0) =~= Seq::<Notification>::empty());
            assert(retained(orig.subrange(0, 0), now_ms) =~= Seq::<Notification>::empty());
        }
        while self.notifications.len() != 0
            invariant
                self.max_notifications == MAX_LIVE_NOTIFICATIONS,
                orig.len() <= MAX_LIVE_NOTIFICATIONS,
                self.notifications@.len() <= orig.len(),
                self.notifications@ =~= orig.subrange(
                    orig.len() - self.notifications@.len(),
                    orig.len() as int,
                ),
                kept@ =~= retained(
                    orig.subrange(0, orig.len() - self.notifications@.len()),
                    now_ms,
                ),
                kept@.len() + self.notifications@.len() <= orig.len(),
            decreases self.notifications@.len(),
        {
            let ghost k = orig.len() - self.notifications@.len();
            let n = self.notifications.pop_front().unwrap();
            proof {
                reveal(Seq::filter);
                assert(n == orig[k]);
                assert(orig.subrange(0, k + 1).drop_last() =~= orig.subrange(0, k));
                assert(orig.subrange(0, k + 1).last() == orig[k]);
            }
            if !n.is_expired(now_ms) {
                kept.push_back(n);
                proof {
                    assert(kept@ =~= retained(orig.subrange(0, k + 1), now_ms));
                }
            } else {
                proof {
                    assert(kept@ =~= retained(orig.subrange(0, k + 1), now_ms));
                }
            }
        }
        proof {
            assert(orig.subrange(0, orig.len() as int) =~= orig);
        }
        self.notifications = kept;
    }

    /// Read-only access to the live queue, oldest first.
    pub fn get_notifications(&self) -> (r: &VecDeque<Notification>)
        ensures
            r@ == self.queue(),
    {
        &self.notifications
    }

    /// Drops every notification at once.
    pub fn clear(&mut self)
        requires
            old(self).wf(),
        ensures
            final(self).wf(),
            final(self).queue() == Seq::<Notification>::empty(),
    {
        self.notifications.clear();
        proof {
            assert(self.notifications@ =~= Seq::<Notification>::empty());
        }
    }
}

impl Default for NotificationManager {
    /// Same as `new`: an empty queue bounded at five.
    fn default() -> (r: Self)
        ensures
            r.wf(),
            r.queue() == Seq::<Notification>::empty(),
    {
        Self::new()
    }
}

} // verus!
