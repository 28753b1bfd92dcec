//! Value types exchanged with the outside services: commands, D-Bus,
//! desktop notifications, the clock, and the filesystem roots.

use vstd::prelude::*;

use crate::text::{decimal, join_path, owned, path_join, push_str, push_u64};

verus! {

broadcast use vstd::string::group_string_axioms;

#[verifier::external_type_specification]
#[verifier::external_body]
pub struct ExSystemTime(std::time::SystemTime);

/// Process execution status reported by a command runner.
#[derive(Debug, Clone, Copy, PartialEq, Eq)]
pub enum CommandStatus {
    /// The process exited with a code.
    Exit(i32),
    /// The process terminated because of a signal.
    Signal(i32),
}

/// D-Bus bus selection.
#[derive(Debug, Clone, Copy, PartialEq, Eq, Hash)]
pub enum BusKind {
    /// The desktop session bus.
    Session,
    /// The system bus.
    System,
}

/// The word naming a bus in messages.
pub open spec fn bus_label(bus: BusKind) -> Seq<char> {
    match bus {
        BusKind::Session => "session"@,
        BusKind::System => "system"@,
    }
}

fn bus_label_of(bus: BusKind) -> (r: &'static str)
    ensures
        r@ == bus_label(bus),
{
    match bus {
        BusKind::Session => "session",
        BusKind::System => "system",
    }
}

/// Desktop-notification urgency.
#[derive(Debug, Clone, Copy, PartialEq, Eq)]
pub enum NotificationUrgency {
    /// Critical urgency, used by every alert.
    Critical,
}

/// Desktop-notification expiry policy.
#[derive(Debug, Clone, Copy, PartialEq, Eq)]
pub enum NotificationTimeout {
    /// Keep the notification until the desktop or user dismisses it.
    Never,
}

/// Complete desktop-notification payload handed to the notifier.
#[derive(Debug, Clone, PartialEq, Eq)]
pub struct NotificationPayload {
    /// Notification title.
    pub title: String,
    /// Notification body.
    pub body: String,
    /// Freedesktop icon name.
    pub icon: String,
    /// Desktop urgency hint.
    pub urgency: NotificationUrgency,
    /// Desktop expiry policy.
    pub timeout: NotificationTimeout,
}

/// Failure returned by a desktop notifier.
#[derive(Debug, Clone, PartialEq, Eq)]
pub struct NotificationError {
    /// Human-readable failure detail.
    pub detail: String,
}

impl NotificationError {
    /// The message shown for this failure.
    pub fn message(&self) -> (r: String)
        ensures
            r@ == "desktop notification failed: "@ + self.detail@,
    {
        let mut s = owned("desktop notification failed: ");
        push_str(&mut s, self.detail.as_str());
        s
    }
}

/// Desktop-notification service, implemented by the production notifier
/// and by test fakes.
pub trait NotificationFacade {
    /// Attempts to display one exact notification payload; an `Err` says
    /// that the desktop service was unavailable or refused it.
    fn send(&mut self, payload: &NotificationPayload) -> Result<(), NotificationError>;
}

/// A notification service together with the record of what was handed to
/// it and what each send returned.
pub struct NotificationLog<F> {
    /// The service.
    pub inner: F,
    sent: Ghost<Seq<NotificationPayload>>,
    outcomes: Ghost<Seq<Result<(), NotificationError>>>,
}

impl<F: NotificationFacade> NotificationLog<F> {
    /// The service.
    pub closed spec fn service(&self) -> F {
        self.inner
    }

    /// Every payload sent through this log, in order.
    pub closed spec fn sent(&self) -> Seq<NotificationPayload> {
        self.sent@
    }

    /// What each of those sends returned, in the same order.
    pub closed spec fn outcomes(&self) -> Seq<Result<(), NotificationError>> {
        self.outcomes@
    }

    /// Starts an empty record around a service.
    pub fn new(inner: F) -> (r: Self)
        ensures
            r.service() == inner,
            r.sent() == Seq::<NotificationPayload>::empty(),
            r.outcomes() == Seq::<Result<(), NotificationError>>::empty(),
    {
        NotificationLog { inner, sent: Ghost(Seq::empty()), outcomes: Ghost(Seq::empty()) }
    }

    /// Sends one payload through the service and records it with the
    /// service's answer, which is returned.
    pub fn send(&mut self, payload: &NotificationPayload) -> (r: Result<(), NotificationError>)
        ensures
            final(self).sent() == old(self).sent().push(*payload),
            final(self).outcomes() == old(self).outcomes().push(r),
    {
        let r = self.inner.send(payload);
        let ghost s = self.sent@.push(*payload);
        let ghost o = self.outcomes@.push(r);
        self.sent = Ghost(s);
        self.outcomes = Ghost(o);
        r
    }
}

/// Typed argument of a D-Bus method call.
#[derive(Debug, Clone, PartialEq, Eq, Hash)]
pub enum DbusArgument {
    /// A D-Bus string (`s`).
    String(String),
    /// An empty string-to-variant dictionary (`a{sv}`).
    EmptyStringVariantDict,
}

/// Exact D-Bus method request.
#[derive(Debug, Clone, PartialEq, Eq, Hash)]
pub struct DbusRequest {
    /// Bus carrying the request.
    pub bus: BusKind,
    /// Remote service name.
    pub service: String,
    /// Remote object path.
    pub object_path: String,
    /// Interface containing the method.
    pub interface: String,
    /// Method member name.
    pub member: String,
    /// Ordered typed method arguments.
    pub arguments: Vec<DbusArgument>,
    /// Per-call timeout; `None` selects the default.
    pub timeout: Option<std::time::Duration>,
}

/// A D-Bus reply with its payload rendered as text fragments.
#[derive(Debug, Clone, PartialEq, Eq)]
pub struct DbusOutput {
    /// Which bus produced the message.
    pub bus: BusKind,
    /// Remote service name.
    pub service: String,
    /// Object path.
    pub object_path: String,
    /// Interface name.
    pub interface: String,
    /// Method or signal member name.
    pub member: String,
    /// Payload fragments, in order.
    pub body: Vec<String>,
}

/// Failure of a command, D-Bus or HID service.
#[derive(Debug, Clone, PartialEq, Eq)]
pub enum BoundaryError {
    /// A fake command runner had no reply queued for the command.
    CommandNotQueued {
        /// Program path the fake was asked to run.
        program: String,
        /// Arguments the fake was asked to run with.
        args: Vec<String>,
    },
    /// A command could not be run to completion.
    CommandFailed {
        /// Program path or executable token.
        program: String,
        /// Arguments passed to the child process.
        args: Vec<String>,
        /// Human-readable failure detail.
        detail: String,
    },
    /// A fake D-Bus service had no reply queued for the call.
    DbusCallNotQueued {
        /// Which bus the call was on.
        bus: BusKind,
        /// Remote service name.
        service: String,
        /// Object path.
        path: String,
        /// Interface name.
        interface: String,
        /// Method or signal member name.
        member: String,
    },
    /// A D-Bus call failed before a decoded reply came back.
    DbusCallFailed {
        /// Which bus the call targeted.
        bus: BusKind,
        /// Remote service name.
        service: String,
        /// Object path.
        path: String,
        /// Interface name.
        interface: String,
        /// Method or signal member name.
        member: String,
        /// Human-readable failure detail.
        detail: String,
    },
    /// A HID device could not be found, opened or spoken to.
    HidFailed {
        /// Device path, when discovery reached a concrete node.
        path: Option<String>,
        /// Human-readable failure detail.
        detail: String,
    },
}

/// The `` `service` `path` `interface` `member` `` part of a D-Bus message.
pub open spec fn dbus_target(service: Seq<char>, path: Seq<char>, interface: Seq<char>, member: Seq<char>) -> Seq<char> {
    "`"@ + service + "` `"@ + path + "` `"@ + interface + "` `"@ + member + "`"@
}

/// The message of a boundary failure.
pub open spec fn boundary_message(e: BoundaryError) -> Seq<char> {
    match e {
        BoundaryError::CommandNotQueued { program, args } => "no fixture reply queued for command `"@
            + program@ + "` with "@ + decimal(args.len() as nat) + " arg(s)"@,
        BoundaryError::CommandFailed { program, args, detail } => "command `"@ + program@ + "` with "@
            + decimal(args.len() as nat) + " arg(s) failed: "@ + detail@,
        BoundaryError::DbusCallNotQueued { bus, service, path, interface, member } =>
            "no fixture reply queued for D-Bus "@ + bus_label(bus) + " call "@
            + dbus_target(service@, path@, interface@, member@),
        BoundaryError::DbusCallFailed { bus, service, path, interface, member, detail } => "D-Bus "@
            + bus_label(bus) + " call "@ + dbus_target(service@, path@, interface@, member@)
            + " failed: "@ + detail@,
        BoundaryError::HidFailed { path, detail } => match path {
            Some(p) => "HID device `"@ + p@ + "` failed: "@ + detail@,
            None => "HID device failed: "@ + detail@,
        },
    }
}

fn push_dbus_target(s: &mut String, service: &str, path: &str, interface: &str, member: &str)
    ensures
        final(s)@ == old(s)@ + dbus_target(service@, path@, interface@, member@),
{
    push_str(s, "`");
    push_str(s, service);
    push_str(s, "` `");
    push_str(s, path);
    push_str(s, "` `");
    push_str(s, interface);
    push_str(s, "` `");
    push_str(s, member);
    push_str(s, "`");
    assert(final(s)@ =~= old(s)@ + dbus_target(service@, path@, interface@, member@));
}

impl BoundaryError {
    /// The message shown for this failure (see [`boundary_message`]).
    pub fn message(&self) -> (r: String)
        ensures
            r@ == boundary_message(*self),
    {
        let mut s = String::new();
        match self {
            BoundaryError::CommandNotQueued { program, args } => {
                push_str(&mut s, "no fixture reply queued for command `");
                push_str(&mut s, program.as_str());
                push_str(&mut s, "` with ");
                push_u64(&mut s, args.len() as u64);
                push_str(&mut s, " arg(s)");
            },
            BoundaryError::CommandFailed { program, args, detail } => {
                push_str(&mut s, "command `");
                push_str(&mut s, program.as_str());
                push_str(&mut s, "` with ");
                push_u64(&mut s, args.len() as u64);
                push_str(&mut s, " arg(s) failed: ");
                push_str(&mut s, detail.as_str());
            },
            BoundaryError::DbusCallNotQueued { bus, service, path, interface, member } => {
                push_str(&mut s, "no fixture reply queued for D-Bus ");
                push_str(&mut s, bus_label_of(*bus));
                push_str(&mut s, " call ");
                push_dbus_target(&mut s, service.as_str(), path.as_str(), interface.as_str(), member.as_str());
            },
            BoundaryError::DbusCallFailed { bus, service, path, interface, member, detail } => {
                push_str(&mut s, "D-Bus ");
                push_str(&mut s, bus_label_of(*bus));
                push_str(&mut s, " call ");
                push_dbus_target(&mut s, service.as_str(), path.as_str(), interface.as_str(), member.as_str());
                push_str(&mut s, " failed: ");
                push_str(&mut s, detail.as_str());
            },
            BoundaryError::HidFailed { path, detail } => {
                match path {
                    Some(p) => {
                        push_str(&mut s, "HID device `");
                        push_str(&mut s, p.as_str());
                        push_str(&mut s, "` failed: ");
                    },
                    None => {
                        push_str(&mut s, "HID device failed: ");
                    },
                }
                push_str(&mut s, detail.as_str());
            },
        }
        assert(s@ =~= boundary_message(*self));
        s
    }
}

/// A reading of the monotonic and wall clocks.
#[derive(Debug, Clone, Copy, PartialEq, Eq)]
pub struct ClockSnapshot {
    /// Monotonic elapsed time.
    pub monotonic: std::time::Duration,
    /// Wall-clock timestamp.
    pub wall: std::time::SystemTime,
}

/// Filesystem roots shared by runtime, config, sensors and tests.
#[derive(Debug, Clone, PartialEq, Eq)]
pub struct FilesystemRoots {
    /// Runtime publication root.
    pub runtime_root: Option<String>,
    /// Cache root.
    pub cache_root: Option<String>,
    /// Config root.
    pub config_root: Option<String>,
    /// Procfs root.
    pub proc_root: String,
    /// Sysfs root.
    pub sys_root: String,
}

impl Default for FilesystemRoots {
    /// No runtime, cache or config root; the host's `/proc` and `/sys`.
    fn default() -> (r: Self)
        ensures
            r.runtime_root is None,
            r.cache_root is None,
            r.config_root is None,
            r.proc_root@ == "/proc"@,
            r.sys_root@ == "/sys"@,
    {
        FilesystemRoots {
            runtime_root: None,
            cache_root: None,
            config_root: None,
            proc_root: owned("/proc"),
            sys_root: owned("/sys"),
        }
    }
}

impl FilesystemRoots {
    /// The runtime `state/` directory, when the runtime root is known.
    pub fn state_root(&self) -> (r: Option<String>)
        ensures
            match self.runtime_root {
                Some(root) => r is Some && r->0@ == path_join(root@, "state"@),
                None => r is None,
            },
    {
        match &self.runtime_root {
            Some(root) => Some(join_path(root.as_str(), "state")),
            None => None,
        }
    }
}

} // verus!
