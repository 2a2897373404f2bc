//! Errors of building, running and messaging a graph.

use vstd::prelude::*;

use crate::actor::actor::BoxError;
use crate::text::{append_decimal, decimal};

verus! {

/// Errors returned while validating a graph during build.
#[derive(Debug, Clone, PartialEq, Eq)]
pub enum BuildError {
    /// The graph was built without any actors.
    EmptyActors,
    /// Two actors shared the same id.
    DuplicateActorId(String),
    /// Two ingress points shared the same name.
    DuplicateIngressName(String),
    /// A link referenced an actor id that was not defined.
    UnknownLinkSource { actor: String },
    /// A link target referenced an actor id that was not defined.
    UnknownLinkTarget { from: String, actor: String },
    /// An ingress point referenced an actor id that was not defined.
    UnknownIngressTarget { ingress: String, actor: String },
    /// Generic invalid builder configuration.
    InvalidConfig(&'static str),
}

impl BuildError {
    /// What [`message`](Self::message) says.
    pub open spec fn text(self) -> Seq<char> {
        match self {
            BuildError::EmptyActors => "graph must contain at least one actor"@,
            BuildError::DuplicateActorId(id) => "duplicate actor id `"@ + id@ + "`"@,
            BuildError::DuplicateIngressName(name) => "duplicate ingress name `"@ + name@ + "`"@,
            BuildError::UnknownLinkSource { actor } => "link source actor `"@ + actor@
                + "` does not exist"@,
            BuildError::UnknownLinkTarget { from, actor } => "link from `"@ + from@
                + "` references unknown actor `"@ + actor@ + "`"@,
            BuildError::UnknownIngressTarget { ingress, actor } => "ingress `"@ + ingress@
                + "` references unknown actor `"@ + actor@ + "`"@,
            BuildError::InvalidConfig(detail) => detail@,
        }
    }

    /// The error in words.
    pub fn message(&self) -> (r: String)
        ensures
            r@ == self.text(),
    {
        match self {
            BuildError::EmptyActors => "graph must contain at least one actor".to_owned(),
            BuildError::DuplicateActorId(id) => {
                let mut out = "duplicate actor id `".to_owned();
                out.append(id.as_str());
                out.append("`");
                out
            },
            BuildError::DuplicateIngressName(name) => {
                let mut out = "duplicate ingress name `".to_owned();
                out.append(name.as_str());
                out.append("`");
                out
            },
            BuildError::UnknownLinkSource { actor } => {
                let mut out = "link source actor `".to_owned();
                out.append(actor.as_str());
                out.append("` does not exist");
                out
            },
            BuildError::UnknownLinkTarget { from, actor } => {
                let mut out = "link from `".to_owned();
                out.append(from.as_str());
                out.append("` references unknown actor `");
                out.append(actor.as_str());
                out.append("`");
                out
            },
            BuildError::UnknownIngressTarget { ingress, actor } => {
                let mut out = "ingress `".to_owned();
                out.append(ingress.as_str());
                out.append("` references unknown actor `");
                out.append(actor.as_str());
                out.append("`");
                out
            },
            BuildError::InvalidConfig(detail) => (*detail).to_owned(),
        }
    }
}

/// Errors returned while running a graph.
#[derive(Debug, PartialEq, Eq)]
pub enum GraphError {
    /// Another instance of the same graph spec is already running.
    AlreadyRunning,
    /// The graph runtime observed invalid internal state.
    InvalidState { detail: String },
    /// An actor returned cleanly before graph shutdown was requested.
    ActorStopped { actor_id: String },
    /// An actor returned an error.
    ActorFailed { actor_id: String, source: BoxError },
    /// An actor panicked while running.
    ActorPanicked { actor_id: String },
    /// An actor task was externally cancelled or aborted.
    ActorCancelled { actor_id: String },
}

impl GraphError {
    /// What [`message`](Self::message) says.
    pub open spec fn text(self) -> Seq<char> {
        match self {
            GraphError::AlreadyRunning => "graph is already running"@,
            GraphError::InvalidState { detail } => "graph runtime state is invalid: "@ + detail@,
            GraphError::ActorStopped { actor_id } => "actor `"@ + actor_id@
                + "` exited before graph shutdown"@,
            GraphError::ActorFailed { actor_id, source } => "actor `"@ + actor_id@
                + "` returned an error"@,
            GraphError::ActorPanicked { actor_id } => "actor `"@ + actor_id@ + "` panicked"@,
            GraphError::ActorCancelled { actor_id } => "actor `"@ + actor_id@ + "` was cancelled"@,
        }
    }

    /// The error in words.
    pub fn message(&self) -> (r: String)
        ensures
            r@ == self.text(),
    {
        match self {
            GraphError::AlreadyRunning => "graph is already running".to_owned(),
            GraphError::InvalidState { detail } => {
                let mut out = "graph runtime state is invalid: ".to_owned();
                out.append(detail.as_str());
                out
            },
            GraphError::ActorStopped { actor_id } => about_actor(
                actor_id,
                "` exited before graph shutdown",
            ),
            GraphError::ActorFailed { actor_id, source } => about_actor(
                actor_id,
                "` returned an error",
            ),
            GraphError::ActorPanicked { actor_id } => about_actor(actor_id, "` panicked"),
            GraphError::ActorCancelled { actor_id } => about_actor(actor_id, "` was cancelled"),
        }
    }
}

/// "actor `<id>", continued with `rest`.
pub(crate) fn about_actor(actor_id: &String, rest: &str) -> (r: String)
    ensures
        r@ == "actor `"@ + actor_id@ + rest@,
{
    let mut out = "actor `".to_owned();
    out.append(actor_id.as_str());
    out.append(rest);
    out
}

/// Errors returned when sending to an actor mailbox.
#[derive(Debug, Clone, PartialEq, Eq)]
pub enum SendError {
    /// The sender attempted to address a peer that is not linked.
    UnknownPeer { actor_id: String, peer_id: String },
    /// The target actor is currently unbound because it is not running.
    ActorNotRunning { actor_id: String },
    /// The envelope exceeds the configured mailbox payload limit.
    EnvelopeTooLarge { actor_id: String, envelope_len: usize, max_envelope_bytes: usize },
    /// The target actor's mailbox is full.
    MailboxFull { actor_id: String },
    /// The target actor's mailbox is closed.
    MailboxClosed { actor_id: String },
}

impl SendError {
    /// What [`message`](Self::message) says.
    pub open spec fn text(self) -> Seq<char> {
        match self {
            SendError::UnknownPeer { actor_id, peer_id } => "actor `"@ + actor_id@
                + "` is not linked to peer `"@ + peer_id@ + "`"@,
            SendError::ActorNotRunning { actor_id } => "actor `"@ + actor_id@
                + "` is not currently running"@,
            SendError::EnvelopeTooLarge { actor_id, envelope_len, max_envelope_bytes } =>
                "envelope for actor `"@ + actor_id@ + "` exceeds max size of "@ + decimal(
                max_envelope_bytes as nat,
            ) + " bytes ("@ + decimal(envelope_len as nat) + " bytes)"@,
            SendError::MailboxFull { actor_id } => "mailbox for actor `"@ + actor_id@
                + "` is full"@,
            SendError::MailboxClosed { actor_id } => "mailbox for actor `"@ + actor_id@
                + "` is closed"@,
        }
    }

    /// The error in words.
    pub fn message(&self) -> (r: String)
        ensures
            r@ == self.text(),
    {
        match self {
            SendError::UnknownPeer { actor_id, peer_id } => {
                let mut out = about_actor(actor_id, "` is not linked to peer `");
                out.append(peer_id.as_str());
                out.append("`");
                out
            },
            SendError::ActorNotRunning { actor_id } => about_actor(
                actor_id,
                "` is not currently running",
            ),
            SendError::EnvelopeTooLarge { actor_id, envelope_len, max_envelope_bytes } => {
                let mut out = "envelope for actor `".to_owned();
                out.append(actor_id.as_str());
                out.append("` exceeds max size of ");
                append_decimal(&mut out, *max_envelope_bytes as u64);
                out.append(" bytes (");
                append_decimal(&mut out, *envelope_len as u64);
                out.append(" bytes)");
                out
            },
            SendError::MailboxFull { actor_id } => {
                let mut out = "mailbox for actor `".to_owned();
                out.append(actor_id.as_str());
                out.append("` is full");
                out
            },
            SendError::MailboxClosed { actor_id } => {
                let mut out = "mailbox for actor `".to_owned();
                out.append(actor_id.as_str());
                out.append("` is closed");
                out
            },
        }
    }
}

/// Errors returned by stable ingress handles.
#[derive(Debug, Clone, PartialEq, Eq)]
pub enum IngressError {
    /// The graph is not currently running, so the ingress is not bound.
    NotRunning { ingress: String, actor_id: String },
    /// The ingress envelope exceeds the configured mailbox payload limit.
    EnvelopeTooLarge {
        ingress: String,
        actor_id: String,
        envelope_len: usize,
        max_envelope_bytes: usize,
    },
    /// The ingress target mailbox is full.
    MailboxFull { ingress: String, actor_id: String },
    /// The ingress target mailbox is closed.
    MailboxClosed { ingress: String, actor_id: String },
}

/// "ingress `<name>", then `middle`, the actor's id and `rest`.
fn about_ingress(ingress: &String, middle: &str, actor_id: &String, rest: &str) -> (r: String)
    ensures
        r@ == "ingress `"@ + ingress@ + middle@ + actor_id@ + rest@,
{
    let mut out = "ingress `".to_owned();
    out.append(ingress.as_str());
    out.append(middle);
    out.append(actor_id.as_str());
    out.append(rest);
    out
}

impl IngressError {
    /// What [`message`](Self::message) says.
    pub open spec fn text(self) -> Seq<char> {
        match self {
            IngressError::NotRunning { ingress, actor_id } => "ingress `"@ + ingress@
                + "` is not currently bound to actor `"@ + actor_id@ + "`"@,
            IngressError::EnvelopeTooLarge {
                ingress,
                actor_id,
                envelope_len,
                max_envelope_bytes,
            } => "ingress `"@ + ingress@ + "` envelope for actor `"@ + actor_id@
                + "` exceeds max size of "@ + decimal(max_envelope_bytes as nat) + " bytes ("@
                + decimal(envelope_len as nat) + " bytes)"@,
            IngressError::MailboxFull { ingress, actor_id } => "ingress `"@ + ingress@
                + "` target actor `"@ + actor_id@ + "` mailbox is full"@,
            IngressError::MailboxClosed { ingress, actor_id } => "ingress `"@ + ingress@
                + "` target actor `"@ + actor_id@ + "` mailbox is closed"@,
        }
    }

    /// The error in words.
    pub fn message(&self) -> (r: String)
        ensures
            r@ == self.text(),
    {
        match self {
            IngressError::NotRunning { ingress, actor_id } => about_ingress(
                ingress,
                "` is not currently bound to actor `",
                actor_id,
                "`",
            ),
            IngressError::EnvelopeTooLarge {
                ingress,
                actor_id,
                envelope_len,
                max_envelope_bytes,
            } => {
                let mut out = about_ingress(
                    ingress,
                    "` envelope for actor `",
                    actor_id,
                    "` exceeds max size of ",
                );
                append_decimal(&mut out, *max_envelope_bytes as u64);
                out.append(" bytes (");
                append_decimal(&mut out, *envelope_len as u64);
                out.append(" bytes)");
                out
            },
            IngressError::MailboxFull { ingress, actor_id } => about_ingress(
                ingress,
                "` target actor `",
                actor_id,
                "` mailbox is full",
            ),
            IngressError::MailboxClosed { ingress, actor_id } => about_ingress(
                ingress,
                "` target actor `",
                actor_id,
                "` mailbox is closed",
            ),
        }
    }
}

} // verus!
