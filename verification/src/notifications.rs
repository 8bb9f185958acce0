use vstd::prelude::*;
use crate::logger::Rgb;
use crate::time::elapsed_ms_spec;

verus! {

/// Toast notification levels matching the logger.
#[derive(Debug, Clone, Copy, PartialEq, Eq, Structural)]
pub enum ToastLevel {
    Info,
    Success,
    Warning,
    Error,
}

/// The color of each toast level.
pub open spec fn toast_color(level: ToastLevel) -> Rgb {
    match level {
        ToastLevel::Info => Rgb { red: 33, green: 150, blue: 243 },
        ToastLevel::Success => Rgb { red: 76, green: 175, blue: 80 },
        ToastLevel::Warning => Rgb { red: 255, green: 152, blue: 0 },
        ToastLevel::Error => Rgb { red: 244, green: 67, blue: 54 },
    }
}

/// The icon of each toast level.
pub open spec fn toast_icon(level: ToastLevel) -> Seq<char> {
    match level {
        ToastLevel::Info => "\u{2139}"@,
        ToastLevel::Success => "\u{2713}"@,
        ToastLevel::Warning => "\u{26A0}"@,
        ToastLevel::Error => "\u{2717}"@,
    }
}

impl ToastLevel {
    pub fn color(&self) -> (r: Rgb)
        ensures
            r == toast_color(*self),
    {
        match self {
            ToastLevel::Info => Rgb { red: 33, green: 150, blue: 243 },
            ToastLevel::Success => Rgb { red: 76, green: 175, blue: 80 },
            ToastLevel::Warning => Rgb { red: 255, green: 152, blue: 0 },
            ToastLevel::Error => Rgb { red: 244, green: 67, blue: 54 },
        }
    }

    pub fn icon(&self) -> (r: &'static str)
        ensures
            r@ == toast_icon(*self),
    {
        match self {
            ToastLevel::Info => "\u{2139}",
            ToastLevel::Success => "\u{2713}",
            ToastLevel::Warning => "\u{26A0}",
            ToastLevel::Error => "\u{2717}",
        }
    }
}

/// A single toast notification.
#[derive(Debug)]
pub struct Toast {
    pub level: ToastLevel,
    pub message: String,
    pub created_at: i64,
    pub duration_ms: u64,
}

impl Clone for Toast {
    fn clone(&self) -> (r: Self)
        ensures
            r == *self,
    {
        Toast {
            level: self.level,
            message: self.message.clone(),
            created_at: self.created_at,
            duration_ms: self.duration_ms,
        }
    }
}

/// A toast has expired once its lifetime has elapsed.
pub open spec fn toast_expired(t: Toast, now_ms: i64) -> bool {
    elapsed_ms_spec(t.created_at, now_ms) >= t.duration_ms
}

impl Toast {
    /// A toast created at the given clock reading, shown for the default
    /// three seconds.
    pub fn new(level: ToastLevel, message: String, now_ms: i64) -> (r: Self)
        ensures
            r.level == level,
            r.message == message,
            r.created_at == now_ms,
            r.duration_ms == 3000,
    {
        Toast { level, message, created_at: now_ms, duration_ms: 3000 }
    }

    /// The same toast with a chosen lifetime.
    pub fn with_duration(self, duration_ms: u64) -> (r: Self)
        ensures
            r.level == self.level,
            r.message == self.message,
            r.created_at == self.created_at,
            r.duration_ms == duration_ms,
    {
        Toast {
            level: self.level,
            message: self.message,
            created_at: self.created_at,
            duration_ms,
        }
    }

    /// Check if this toast has expired at the given clock reading.
    pub fn is_expired(&self, now_ms: i64) -> (r: bool)
        ensures
            r == toast_expired(*self, now_ms),
    {
        crate::time::elapsed_ms(self.created_at, now_ms) >= self.duration_ms
    }
}

/// The toasts still alive at a clock reading, in order.
pub open spec fn alive_toasts(toasts: Seq<Toast>, now_ms: i64) -> Seq<Toast>
    decreases toasts.len(),
{
    if toasts.len() == 0 {
        Seq::<Toast>::empty()
    } else if toast_expired(toasts[0], now_ms) {
        alive_toasts(toasts.skip(1), now_ms)
    } else {
        seq![toasts[0]] + alive_toasts(toasts.skip(1), now_ms)
    }
}

/// What cleanup retains: the live toasts, capped to the newest `max`.
pub open spec fn cleaned_toasts(toasts: Seq<Toast>, max: nat, now_ms: i64) -> Seq<Toast> {
    let kept = alive_toasts(toasts, now_ms);
    if kept.len() > max {
        kept.skip(kept.len() - max)
    } else {
        kept
    }
}

/// Manager for toast notifications: keeps the newest live toasts, up to a
/// fixed count.
pub struct ToastManager {
    toasts: Vec<Toast>,
    max_toasts: usize,
}

impl ToastManager {
    /// The retained toasts, oldest first.
    pub closed spec fn toasts_spec(&self) -> Seq<Toast> {
        self.toasts@
    }

    /// How many toasts are shown at once.
    pub closed spec fn max_spec(&self) -> nat {
        self.max_toasts as nat
    }

    /// A manager showing at most five toasts.
    pub fn new() -> (r: Self)
        ensures
            r.toasts_spec() == Seq::<Toast>::empty(),
            r.max_spec() == 5,
    {
        ToastManager { toasts: Vec::new(), max_toasts: 5 }
    }

    /// Removes expired toasts and keeps only the newest `max`.
    pub fn cleanup(&mut self, now_ms: i64)
        ensures
            final(self).max_spec() == old(self).max_spec(),
            final(self).toasts_spec() == cleaned_toasts(
                old(self).toasts_spec(),
                old(self).max_spec(),
                now_ms,
            ),
    {
        let ghost orig = self.toasts@;
        let mut kept: Vec<Toast> = Vec::new();
        let mut i: usize = 0;
        proof {
            assert(orig.skip(0) =~= orig);
            assert(kept@ + alive_toasts(orig, now_ms) =~= alive_toasts(orig, now_ms));
        }
        while i < self.toasts.len()
            invariant
                i <= orig.len(),
                orig == self.toasts@,
                kept@ + alive_toasts(orig.skip(i as int), now_ms) == alive_toasts(orig, now_ms),
            decreases orig.len() - i,
        {
            let ghost oldkept = kept@;
            let ghost rest = orig.skip(i as int);
            proof {
                assert(rest[0] == orig[i as int]);
                assert(rest.skip(1) =~= orig.skip(i + 1));
            }
            let t = &self.toasts[i];
            if !t.is_expired(now_ms) {
                kept.push(t.clone());
                proof {
                    assert(kept@ =~= oldkept + seq![orig[i as int]]);
                    assert(kept@ + alive_toasts(orig.skip(i + 1), now_ms)
                        =~= oldkept + (seq![orig[i as int]] + alive_toasts(
                        orig.skip(i + 1),
                        now_ms,
                    )));
                }
            }
            i = i + 1;
        }
        proof {
            assert(orig.skip(i as int) =~= Seq::<Toast>::empty());
            assert(kept@ + Seq::<Toast>::empty() =~= kept@);
            assert(kept@ == alive_toasts(orig, now_ms));
        }
        if kept.len() > self.max_toasts {
            let excess = kept.len() - self.max_toasts;
            let mut capped: Vec<Toast> = Vec::new();
            let mut j: usize = excess;
            proof {
                assert(capped@ =~= kept@.subrange(excess as int, excess as int));
            }
            while j < kept.len()
                invariant
                    excess <= j <= kept@.len(),
                    capped@ == kept@.subrange(excess as int, j as int),
                decreases kept@.len() - j,
            {
                capped.push(kept[j].clone());
                proof {
                    assert(kept@.subrange(excess as int, j + 1)
                        =~= kept@.subrange(excess as int, j as int) + seq![kept@[j as int]]);
                }
                j = j + 1;
            }
            proof {
                assert(capped@ =~= kept@.skip(excess as int));
            }
            self.toasts = capped;
        } else {
            self.toasts = kept;
        }
    }

    /// Shows a toast with the default lifetime, then prunes.
    pub fn show(&mut self, level: ToastLevel, message: String, now_ms: i64)
        ensures
            final(self).max_spec() == old(self).max_spec(),
            final(self).toasts_spec() == cleaned_toasts(
                old(self).toasts_spec().push(
                    Toast { level, message, created_at: now_ms, duration_ms: 3000 },
                ),
                old(self).max_spec(),
                now_ms,
            ),
    {
        let toast = Toast::new(level, message, now_ms);
        self.toasts.push(toast);
        self.cleanup(now_ms);
    }

    /// Shows a toast with a chosen lifetime, then prunes.
    pub fn show_with_duration(
        &mut self,
        level: ToastLevel,
        message: String,
        duration_ms: u64,
        now_ms: i64,
    )
        ensures
            final(self).max_spec() == old(self).max_spec(),
            final(self).toasts_spec() == cleaned_toasts(
                old(self).toasts_spec().push(
                    Toast { level, message, created_at: now_ms, duration_ms },
                ),
                old(self).max_spec(),
                now_ms,
            ),
    {
        let toast = Toast::new(level, message, now_ms).with_duration(duration_ms);
        self.toasts.push(toast);
        self.cleanup(now_ms);
    }

    pub fn info(&mut self, message: String, now_ms: i64)
        ensures
            final(self).max_spec() == old(self).max_spec(),
            final(self).toasts_spec() == cleaned_toasts(
                old(self).toasts_spec().push(
                    Toast {
                        level: ToastLevel::Info,
                        message,
                        created_at: now_ms,
                        duration_ms: 3000,
                    },
                ),
                old(self).max_spec(),
                now_ms,
            ),
    {
        self.show(ToastLevel::Info, message, now_ms);
    }

    pub fn success(&mut self, message: String, now_ms: i64)
        ensures
            final(self).max_spec() == old(self).max_spec(),
            final(self).toasts_spec() == cleaned_toasts(
                old(self).toasts_spec().push(
                    Toast {
                        level: ToastLevel::Success,
                        message,
                        created_at: now_ms,
                        duration_ms: 3000,
                    },
                ),
                old(self).max_spec(),
                now_ms,
            ),
    {
        self.show(ToastLevel::Success, message, now_ms);
    }

    pub fn warning(&mut self, message: String, now_ms: i64)
        ensures
            final(self).max_spec() == old(self).max_spec(),
            final(self).toasts_spec() == cleaned_toasts(
                old(self).toasts_spec().push(
                    Toast {
                        level: ToastLevel::Warning,
                        message,
                        created_at: now_ms,
                        duration_ms: 3000,
                    },
                ),
                old(self).max_spec(),
                now_ms,
            ),
    {
        self.show(ToastLevel::Warning, message, now_ms);
    }

    pub fn error(&mut self, message: String, now_ms: i64)
        ensures
            final(self).max_spec() == old(self).max_spec(),
            final(self).toasts_spec() == cleaned_toasts(
                old(self).toasts_spec().push(
                    Toast {
                        level: ToastLevel::Error,
                        message,
                        created_at: now_ms,
                        duration_ms: 3000,
                    },
                ),
                old(self).max_spec(),
                now_ms,
            ),
    {
        self.show(ToastLevel::Error, message, now_ms);
    }

    /// The retained toasts, oldest first.
    pub fn toasts(&self) -> (r: &[Toast])
        ensures
            r@ == self.toasts_spec(),
    {
        self.toasts.as_slice()
    }
}

impl Default for ToastManager {
    fn default() -> (r: Self)
        ensures
            r.toasts_spec() == Seq::<Toast>::empty(),
            r.max_spec() == 5,
    {
        ToastManager::new()
    }
}

} // verus!
