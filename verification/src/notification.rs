//! On-screen notifications: short timed messages with a type-keyed color,
//! a fade-out alpha over their last second, and a bounded queue that drops
//! the oldest entries. Times are in milliseconds.

use vstd::prelude::*;

use crate::framebuffer::{Color, Framebuffer};

verus! {

/// The largest accepted notification duration, in milliseconds.
pub const MAX_DURATION_MS: i64 = 0x1000_0000;

/// At most this many notifications are kept on screen.
pub const MAX_NOTIFICATIONS: usize = 5;

/// The semantic kind of a notification, which fixes its color.
#[derive(Debug, Clone, Copy, PartialEq, Eq, Structural)]
pub enum NotificationType {
    Info,
    Warning,
    Error,
    Success,
    Special,
}

/// The color of a notification kind.
pub open spec fn notification_color_spec(t: NotificationType) -> Color {
    match t {
        NotificationType::Info => Color { r: 100, g: 150, b: 255, a: 255 },
        NotificationType::Warning => Color { r: 255, g: 200, b: 50, a: 255 },
        NotificationType::Error => Color { r: 255, g: 80, b: 80, a: 255 },
        NotificationType::Success => Color { r: 100, g: 255, b: 100, a: 255 },
        NotificationType::Special => Color { r: 200, g: 100, b: 255, a: 255 },
    }
}

impl NotificationType {
    /// The color of this kind.
    pub fn get_color(&self) -> (c: Color)
        ensures
            c == notification_color_spec(*self),
    {
        match self {
            NotificationType::Info => Color::new(100, 150, 255, 255),
            NotificationType::Warning => Color::new(255, 200, 50, 255),
            NotificationType::Error => Color::new(255, 80, 80, 255),
            NotificationType::Success => Color::new(100, 255, 100, 255),
            NotificationType::Special => Color::new(200, 100, 255, 255),
        }
    }
}

/// One message with its kind, color and remaining display time.
#[derive(Debug, Clone)]
pub struct Notification {
    pub message: String,
    pub color: Color,
    pub duration_ms: i64,
    pub remaining_ms: i64,
    pub notification_type: NotificationType,
}

impl Notification {
    /// Well-formedness: times within the accepted range.
    pub open spec fn wf(self) -> bool {
        &&& 0 < self.remaining_ms <= MAX_DURATION_MS
        &&& 0 < self.duration_ms <= MAX_DURATION_MS
    }

    /// A fresh notification showing for `duration_ms`, colored by kind.
    pub fn new(message: String, notification_type: NotificationType, duration_ms: i64) -> (r:
        Notification)
        requires
            0 < duration_ms <= MAX_DURATION_MS,
        ensures
            r.wf(),
            r.message == message,
            r.color == notification_color_spec(notification_type),
            r.duration_ms == duration_ms,
            r.remaining_ms == duration_ms,
            r.notification_type == notification_type,
    {
        let color = notification_type.get_color();
        Notification { message, color, duration_ms, remaining_ms: duration_ms, notification_type }
    }

    /// Counts down by `delta_ms`; reports whether time remains.
    pub fn update(&mut self, delta_ms: i64) -> (alive: bool)
        requires
            old(self).remaining_ms <= MAX_DURATION_MS,
            -0x1000_0000 <= old(self).remaining_ms,
            0 <= delta_ms <= 1000000,
        ensures
            final(self).remaining_ms == old(self).remaining_ms - delta_ms,
            final(self).message == old(self).message,
            final(self).color == old(self).color,
            final(self).duration_ms == old(self).duration_ms,
            final(self).notification_type == old(self).notification_type,
            alive == (final(self).remaining_ms > 0),
    {
        self.remaining_ms = self.remaining_ms - delta_ms;
        self.remaining_ms > 0
    }

    /// The fade alpha, per-mille: full until the last second, then the
    /// remaining fraction of that second.
    pub fn get_alpha(&self) -> (r: i64)
        requires
            0 <= self.remaining_ms,
        ensures
            r == (if self.remaining_ms <= 1000 {
                self.remaining_ms as int
            } else {
                1000int
            }),
            0 <= r <= 1000,
    {
        if self.remaining_ms <= 1000 {
            self.remaining_ms
        } else {
            1000
        }
    }
}

/// The bounded notification queue, newest first.
#[derive(Debug, Clone)]
pub struct NotificationManager {
    pub notifications: Vec<Notification>,
    pub max_notifications: usize,
}

impl NotificationManager {
    /// Well-formedness: every stored notification is alive and in range,
    /// and the bound is the fixed queue limit.
    pub open spec fn wf(self) -> bool {
        &&& forall|i: int|
            0 <= i < self.notifications@.len() ==> (#[trigger] self.notifications@[i]).wf()
        &&& self.notifications@.len() <= self.max_notifications
        &&& self.max_notifications == MAX_NOTIFICATIONS
    }

    /// An empty queue holding at most the fixed limit.
    pub fn new() -> (r: NotificationManager)
        ensures
            r.wf(),
            r.notifications@.len() == 0,
    {
        NotificationManager { notifications: Vec::new(), max_notifications: MAX_NOTIFICATIONS }
    }

    /// Prepends a message, dropping the oldest entries beyond the limit:
    /// afterwards the queue holds the new notification first, then the
    /// newest survivors in their old order.
    pub fn add_notification(&mut self, message: String, notification_type: NotificationType, duration_ms: i64)
        requires
            old(self).wf(),
            0 < duration_ms <= MAX_DURATION_MS,
        ensures
            final(self).wf(),
            final(self).notifications@.len() >= 1,
            final(self).notifications@[0].message == message,
            final(self).notifications@[0].notification_type == notification_type,
            final(self).notifications@[0].remaining_ms == duration_ms,
            forall|i: int|
                1 <= i < final(self).notifications@.len() ==> #[trigger] final(self).notifications@[i] == old(self).notifications@[i - 1],
    {
        let n = Notification::new(message, notification_type, duration_ms);
        let mut rebuilt: Vec<Notification> = Vec::new();
        rebuilt.push(n);
        let keep = self.max_notifications - 1;
        let mut i: usize = 0;
        while self.notifications.len() > 0 && i < keep
            invariant
                old(self).wf(),
                keep == MAX_NOTIFICATIONS - 1,
                0 <= i <= old(self).notifications@.len(),
                i <= keep,
                self.notifications@ == old(self).notifications@.skip(i as int),
                self.max_notifications == old(self).max_notifications,
                rebuilt@.len() == i + 1,
                rebuilt@[0].wf(),
                rebuilt@[0].message == message,
                rebuilt@[0].notification_type == notification_type,
                rebuilt@[0].remaining_ms == duration_ms,
                forall|j: int|
                    1 <= j < rebuilt@.len() ==> #[trigger] rebuilt@[j] == old(
                        self,
                    ).notifications@[j - 1],
            decreases old(self).notifications@.len() - i,
        {
            let item = self.notifications.remove(0);
            proof {
                assert(item == old(self).notifications@[i as int]);
            }
            rebuilt.push(item);
            proof {
                assert(self.notifications@ =~= old(self).notifications@.skip(i + 1));
                assert(rebuilt@[i + 1] == old(self).notifications@[i as int]);
            }
            i = i + 1;
        }
        self.notifications = rebuilt;
        proof {
            assert forall|j: int|
                0 <= j < self.notifications@.len() implies (#[trigger] self.notifications@[j]).wf() by {
                if j >= 1 {
                    assert(self.notifications@[j] == old(self).notifications@[j - 1]);
                }
            }
        }
    }

    /// Shows the life-lost message, or the game-over message when no
    /// lives remain.
    pub fn show_life_lost(&mut self, lives_remaining: i64)
        requires
            old(self).wf(),
        ensures
            final(self).wf(),
            final(self).notifications@.len() >= 1,
            final(self).notifications@[0].notification_type == NotificationType::Error,
    {
        let message = if lives_remaining > 0 {
            let mut m = String::new();
            m.append("VIDA PERDIDA! VIDAS RESTANTES: ");
            m.append(int_text(lives_remaining).as_str());
            m
        } else {
            let mut m = String::new();
            m.append("GAME OVER - NO TE QUEDAN MAS VIDAS!");
            m
        };
        self.add_notification(message, NotificationType::Error, 3000);
    }

    /// Shows the key-collected progress, or the portal-unlocked message
    /// once all keys are held.
    pub fn show_key_collected(&mut self, keys_collected: i64, keys_needed: i64)
        requires
            old(self).wf(),
        ensures
            final(self).wf(),
            final(self).notifications@.len() >= 1,
            final(self).notifications@[0].notification_type == NotificationType::Success,
    {
        if keys_collected >= keys_needed {
            let mut m = String::new();
            m.append("JUNTASTE TODAS LAS LLAVES, PORTAL DESBLOQUEADO!");
            self.add_notification(m, NotificationType::Success, 3000);
        } else {
            let mut m = String::new();
            m.append("LLAVE ENCONTRADA! (");
            m.append(int_text(keys_collected).as_str());
            m.append("/");
            m.append(int_text(keys_needed).as_str());
            m.append(")");
            self.add_notification(m, NotificationType::Success, 2500);
        }
    }

    /// Shows the checkpoint progress for the level.
    pub fn show_checkpoint_reached(&mut self, checkpoints: usize, level: usize)
        requires
            old(self).wf(),
        ensures
            final(self).wf(),
            final(self).notifications@.len() >= 1,
            final(self).notifications@[0].notification_type == NotificationType::Special,
    {
        let needed = if level > 0 {
            level - 1
        } else {
            0
        };
        let mut m = String::new();
        m.append("CHECKPOINT ALCANZADO! (");
        m.append(int_text(checkpoints as i64).as_str());
        m.append("/");
        m.append(int_text(needed as i64).as_str());
        m.append(")");
        self.add_notification(m, NotificationType::Special, 2500);
    }

    /// Shows why the exit refused the player.
    pub fn show_exit_blocked(&mut self, reason: &str)
        requires
            old(self).wf(),
        ensures
            final(self).wf(),
            final(self).notifications@.len() >= 1,
            final(self).notifications@[0].notification_type == NotificationType::Warning,
    {
        let mut m = String::new();
        if reason == "no_key" {
            m.append("SALIDA BLOQUEADA - ENCUENTRA LAS LLAVES PRIMERO!");
        } else if reason == "no_checkpoints" {
            m.append("SALIDA BLOQUEADA - CHECKPOINTS INCOMPLETOS!");
        } else if reason == "missing_both" {
            m.append("SALIDA BLOQUEADA - SE NECESITA LLAVES Y CHECKPOINTS!");
        } else {
            m.append("SALIDA BLOQUEADA - TE FALTA COMPLETAR OBJETIVOS!");
        }
        self.add_notification(m, NotificationType::Warning, 3000);
    }

    /// Shows the extra-life message with the new total.
    pub fn show_extra_life(&mut self, total_lives: i64)
        requires
            old(self).wf(),
        ensures
            final(self).wf(),
            final(self).notifications@.len() >= 1,
            final(self).notifications@[0].notification_type == NotificationType::Success,
    {
        let mut m = String::new();
        m.append("VIDA EXTRA! TOTAL: ");
        m.append(int_text(total_lives).as_str());
        self.add_notification(m, NotificationType::Success, 2500);
    }

    /// Shows the trap warning.
    pub fn show_trap_activated(&mut self)
        requires
            old(self).wf(),
        ensures
            final(self).wf(),
            final(self).notifications@.len() >= 1,
            final(self).notifications@[0].notification_type == NotificationType::Error,
    {
        let mut m = String::new();
        m.append("TRAMPA ACTIVADA!");
        self.add_notification(m, NotificationType::Error, 2000);
    }

    /// Counts every notification down by `delta_ms` and drops the expired
    /// ones, keeping the order of the survivors.
    pub fn update(&mut self, delta_ms: i64)
        requires
            old(self).wf(),
            0 <= delta_ms <= 1000000,
        ensures
            final(self).wf(),
            final(self).notifications@.len() <= old(self).notifications@.len(),
            final(self).max_notifications == old(self).max_notifications,
    {
        let mut kept: Vec<Notification> = Vec::new();
        while self.notifications.len() > 0
            invariant
                0 <= delta_ms <= 1000000,
                self.max_notifications == old(self).max_notifications,
                self.max_notifications == MAX_NOTIFICATIONS,
                forall|j: int|
                    0 <= j < self.notifications@.len() ==> (#[trigger] self.notifications@[j]).wf(),
                kept@.len() + self.notifications@.len() <= old(self).notifications@.len(),
                forall|j: int| 0 <= j < kept@.len() ==> (#[trigger] kept@[j]).wf(),
            decreases self.notifications@.len(),
        {
            let ghost before = self.notifications@;
            let mut item = self.notifications.remove(0);
            proof {
                assert(item == before[0]);
                assert(item.wf());
                assert forall|j: int|
                    0 <= j < self.notifications@.len() implies (#[trigger] self.notifications@[j]).wf() by {
                    assert(self.notifications@[j] == before[j + 1]);
                }
            }
            let alive = item.update(delta_ms);
            if alive {
                kept.push(item);
            }
        }
        self.notifications = kept;
    }

    /// Paints the queued notifications as centered banners from the top
    /// of the frame down, newest first.
    pub fn render(&self, framebuffer: &mut Framebuffer)
        requires
            old(framebuffer).wf(),
            self.wf(),
        ensures
            final(framebuffer).wf(),
            final(framebuffer).width == old(framebuffer).width,
            final(framebuffer).height == old(framebuffer).height,
    {
        let notification_height: usize = 25;
        let notification_width: usize = 400;
        if framebuffer.width < notification_width {
            return;
        }
        let start_x = (framebuffer.width - notification_width) / 2;
        let start_y: usize = 50;
        let n = self.notifications.len();
        let mut i: usize = 0;
        while i < n
            invariant
                framebuffer.wf(),
                framebuffer.width == old(framebuffer).width,
                framebuffer.height == old(framebuffer).height,
                self.wf(),
                n == self.notifications@.len(),
                notification_height == 25,
                notification_width == 400,
                start_x <= 0x4000,
                start_x + notification_width <= 0x8000,
                start_y == 50,
                0 <= i <= n,
            decreases n - i,
        {
            let y_offset = i * (notification_height + 5);
            proof {
                assert(i * 30 <= 5 * 30) by (nonlinear_arith)
                    requires
                        0 <= i <= 5,
                ;
            }
            let notification_y = start_y + y_offset;
            if notification_y + notification_height > framebuffer.height {
                break;
            }
            self.render_notification(
                framebuffer,
                i,
                start_x,
                notification_y,
                notification_width,
                notification_height,
            );
            i = i + 1;
        }
    }

    /// Paints one banner: translucent backdrop, colored border, message.
    fn render_notification(
        &self,
        framebuffer: &mut Framebuffer,
        index: usize,
        x: usize,
        y: usize,
        width: usize,
        height: usize,
    )
        requires
            old(framebuffer).wf(),
            self.wf(),
            index < self.notifications@.len(),
            x + width <= 0x8000,
            y + height <= 0x8000,
        ensures
            final(framebuffer).wf(),
            final(framebuffer).width == old(framebuffer).width,
            final(framebuffer).height == old(framebuffer).height,
    {
        let notification = &self.notifications[index];
        let alpha = notification.get_alpha();
        let bg_alpha = (150 * alpha / 1000) as u8;
        let bg_color = Color::new(0, 0, 0, bg_alpha);
        framebuffer.set_current_color(bg_color);
        let mut py = y;
        while py < y + height
            invariant
                framebuffer.wf(),
                framebuffer.width == old(framebuffer).width,
                framebuffer.height == old(framebuffer).height,
                x + width <= 0x8000,
                y + height <= 0x8000,
            decreases y + height - py,
        {
            let mut px = x;
            while px < x + width
                invariant
                    framebuffer.wf(),
                    framebuffer.width == old(framebuffer).width,
                    framebuffer.height == old(framebuffer).height,
                    x + width <= 0x8000,
                decreases x + width - px,
            {
                if px < framebuffer.width && py < framebuffer.height {
                    framebuffer.set_pixel(px, py);
                }
                px = px + 1;
            }
            py = py + 1;
        }
        let fg_alpha = (255 * alpha / 1000) as u8;
        let border_color = Color::new(
            notification.color.r,
            notification.color.g,
            notification.color.b,
            fg_alpha,
        );
        self.render_border(framebuffer, x, y, width, height, border_color);
        framebuffer.set_current_color(border_color);
        let text_x = x + 10;
        let text_y = y + (if height >= 7 {
            (height - 7) / 2
        } else {
            0
        });
        crate::ui::render_text(framebuffer, notification.message.as_str(), text_x, text_y);
    }

    /// Paints a one-pixel rectangle border.
    fn render_border(
        &self,
        framebuffer: &mut Framebuffer,
        x: usize,
        y: usize,
        width: usize,
        height: usize,
        color: Color,
    )
        requires
            old(framebuffer).wf(),
            x + width <= 0x8000,
            y + height <= 0x8000,
        ensures
            final(framebuffer).wf(),
            final(framebuffer).width == old(framebuffer).width,
            final(framebuffer).height == old(framebuffer).height,
    {
        framebuffer.set_current_color(color);
        let mut px = x;
        while px <= x + width
            invariant
                framebuffer.wf(),
                framebuffer.width == old(framebuffer).width,
                framebuffer.height == old(framebuffer).height,
                x + width <= 0x8000,
                y + height <= 0x8000,
            decreases x + width + 1 - px,
        {
            if px < framebuffer.width {
                if y < framebuffer.height {
                    framebuffer.set_pixel(px, y);
                }
                if y + height < framebuffer.height {
                    framebuffer.set_pixel(px, y + height);
                }
            }
            px = px + 1;
        }
        let mut py = y;
        while py <= y + height
            invariant
                framebuffer.wf(),
                framebuffer.width == old(framebuffer).width,
                framebuffer.height == old(framebuffer).height,
                x + width <= 0x8000,
                y + height <= 0x8000,
            decreases y + height + 1 - py,
        {
            if py < framebuffer.height {
                if x < framebuffer.width {
                    framebuffer.set_pixel(x, py);
                }
                if x + width < framebuffer.width {
                    framebuffer.set_pixel(x + width, py);
                }
            }
            py = py + 1;
        }
    }

    /// Drops every notification.
    pub fn clear_all(&mut self)
        requires
            old(self).wf(),
        ensures
            final(self).wf(),
            final(self).notifications@.len() == 0,
    {
        self.notifications = Vec::new();
    }
}

/// The text of one decimal digit.
fn digit_text(d: i64) -> (r: &'static str)
{
    if d == 0 {
        "0"
    } else if d == 1 {
        "1"
    } else if d == 2 {
        "2"
    } else if d == 3 {
        "3"
    } else if d == 4 {
        "4"
    } else if d == 5 {
        "5"
    } else if d == 6 {
        "6"
    } else if d == 7 {
        "7"
    } else if d == 8 {
        "8"
    } else {
        "9"
    }
}

/// The decimal text of a small integer, for message building.
pub fn int_text(v: i64) -> (r: String)
{
    let mut n = if v < 0 {
        if v == i64::MIN {
            i64::MAX
        } else {
            -v
        }
    } else {
        v
    };
    let mut digits: Vec<i64> = Vec::new();
    if n == 0 {
        digits.push(0);
    }
    while n > 0
        invariant
            n >= 0,
        decreases n,
    {
        proof {
            vstd::arithmetic::div_mod::lemma_div_is_strictly_smaller(n as int, 10);
        }
        digits.push(n % 10);
        n = n / 10;
    }
    let mut s = String::new();
    if v < 0 {
        s.append("-");
    }
    let mut i = digits.len();
    while i > 0
        invariant
            i <= digits@.len(),
        decreases i,
    {
        i = i - 1;
        s.append(digit_text(digits[i]));
    }
    s
}

} // verus!
