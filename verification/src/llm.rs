//! Core value types shared by every backend: model descriptors, model
//! capabilities, runtime snapshots of loaded models, and the events of a
//! streaming completion.

use vstd::prelude::*;

use crate::chat::{str_eq, ChatResponse, ChatResponseModel};

verus! {

/// A capability a model advertises. Any model whose capability list holds
/// embedding is excluded from a backend's catalog, since a backend here
/// does not serve embedding directly.
#[derive(Clone, Copy, Debug, PartialEq, Eq, Structural)]
pub enum Capability {
    Completion,
    Vision,
    Tools,
    Thinking,
    Embedding,
}

/// The capability a wire name denotes, if any.
pub open spec fn capability_of_str(s: Seq<char>) -> Option<Capability> {
    if s == "completion"@ {
        Some(Capability::Completion)
    } else if s == "vision"@ {
        Some(Capability::Vision)
    } else if s == "tools"@ {
        Some(Capability::Tools)
    } else if s == "thinking"@ {
        Some(Capability::Thinking)
    } else if s == "embedding"@ {
        Some(Capability::Embedding)
    } else {
        None
    }
}

impl View for Capability {
    type V = Capability;

    open spec fn view(&self) -> Capability {
        *self
    }
}

impl DeepView for Capability {
    type V = Capability;

    open spec fn deep_view(&self) -> Capability {
        *self
    }
}

impl Capability {
    /// Parses a wire name into a capability.
    pub fn parse(s: &str) -> (r: Option<Capability>)
        ensures
            r == capability_of_str(s@),
    {
        if str_eq(s, "completion") {
            Some(Capability::Completion)
        } else if str_eq(s, "vision") {
            Some(Capability::Vision)
        } else if str_eq(s, "tools") {
            Some(Capability::Tools)
        } else if str_eq(s, "thinking") {
            Some(Capability::Thinking)
        } else if str_eq(s, "embedding") {
            Some(Capability::Embedding)
        } else {
            None
        }
    }
}

/// The mathematical value of a [`PromptEvent`].
pub enum PromptEventModel {
    Message(ChatResponseModel),
    Stop,
}

/// One event of a streaming completion: either one decoded record, or the
/// terminal `Stop`. `Stop` ends the session; a `Message` whose record has
/// `done` set is immediately followed by `Stop`.
#[derive(Clone, Debug)]
pub enum PromptEvent {
    Message(ChatResponse),
    Stop,
}

impl View for PromptEvent {
    type V = PromptEventModel;

    open spec fn view(&self) -> PromptEventModel {
        match self {
            PromptEvent::Message(c) => PromptEventModel::Message(c@),
            PromptEvent::Stop => PromptEventModel::Stop,
        }
    }
}

impl DeepView for PromptEvent {
    type V = PromptEventModel;

    open spec fn deep_view(&self) -> PromptEventModel {
        self.view()
    }
}

impl PromptEvent {
    /// Whether this event is the terminal `Stop`.
    pub fn is_stop(&self) -> (r: bool)
        ensures
            r == (self@ is Stop),
    {
        if let PromptEvent::Stop = &self {
            return true;
        }
        false
    }
}

/// The mathematical value of a [`ModelInfo`].
pub struct ModelInfoModel {
    pub name: Seq<char>,
    pub id: Seq<char>,
    pub size: u64,
    pub capabilities: Seq<Capability>,
}

/// Immutable descriptor of one model, produced by a catalog refresh. The
/// whole descriptor set is replaced atomically on each refresh; model
/// identity does not survive a refresh cycle.
#[derive(Clone, Debug)]
pub struct ModelInfo {
    /// Human readable name of the model, also its identifier.
    pub name: String,
    /// Unique id of the model; usually the same as the name.
    pub id: String,
    /// Disk size of the model in bytes.
    pub size: u64,
    /// Additional functionality the model advertises.
    pub capabilities: Vec<Capability>,
}

impl View for ModelInfo {
    type V = ModelInfoModel;

    open spec fn view(&self) -> ModelInfoModel {
        ModelInfoModel {
            name: self.name@,
            id: self.id@,
            size: self.size,
            capabilities: self.capabilities@,
        }
    }
}

impl DeepView for ModelInfo {
    type V = ModelInfoModel;

    open spec fn deep_view(&self) -> ModelInfoModel {
        self.view()
    }
}

/// The mathematical value of a [`RuntimeInfo`].
pub struct RuntimeInfoModel {
    pub size_vram: i64,
    pub expires_at: i128,
    pub name: Seq<char>,
}

/// A time-bounded snapshot of one loaded model, as reported by the
/// backend: its memory footprint and when the report expires. Times are
/// nanoseconds since the Unix epoch.
#[derive(Clone, Debug)]
pub struct RuntimeInfo {
    pub size_vram: i64,
    pub expires_at: i128,
    pub name: String,
}

impl View for RuntimeInfo {
    type V = RuntimeInfoModel;

    open spec fn view(&self) -> RuntimeInfoModel {
        RuntimeInfoModel {
            size_vram: self.size_vram,
            expires_at: self.expires_at,
            name: self.name@,
        }
    }
}

impl DeepView for RuntimeInfo {
    type V = RuntimeInfoModel;

    open spec fn deep_view(&self) -> RuntimeInfoModel {
        self.view()
    }
}

} // verus!
