//! The flags of a chat.

use vstd::prelude::*;

use crate::client::config::Effort;
use crate::text::opt;
use crate::tools::approval::Mode;

verus! {

/// The reasoning budget on the command line.
#[derive(Clone, Copy, PartialEq, Eq, Structural, Debug)]
pub struct EffortArgs {
    pub effort: Option<Effort>,
}

/// The flags of a chat.
pub struct ChatArgs {
    pub prompt: Option<String>,
    pub continue_session: bool,
    /// `--resume`, with an id or without.
    pub resume: Option<Option<String>>,
    pub session: Option<String>,
    pub messages_json: Option<String>,
    pub model: Option<String>,
    pub allow_edits: bool,
    pub permission_mode: Option<Mode>,
    pub stream: bool,
    pub no_tools: bool,
    pub no_mcp: bool,
    pub compact: bool,
    pub tui: bool,
    pub print: bool,
    pub effort: EffortArgs,
}

/// The model of the flags.
#[verifier::ext_equal]
pub struct ArgsV {
    pub prompt: Option<Seq<char>>,
    pub continue_session: bool,
    pub resume: Option<Option<Seq<char>>>,
    pub session: Option<Seq<char>>,
    pub messages_json: Option<Seq<char>>,
    pub model: Option<Seq<char>>,
    pub allow_edits: bool,
    pub permission_mode: Option<Mode>,
    pub stream: bool,
    pub no_tools: bool,
    pub no_mcp: bool,
    pub compact: bool,
    pub tui: bool,
    pub print: bool,
    pub effort: EffortArgs,
}

impl View for ChatArgs {
    type V = ArgsV;

    open spec fn view(&self) -> ArgsV {
        ArgsV {
            prompt: opt(self.prompt),
            continue_session: self.continue_session,
            resume: match self.resume {
                Some(id) => Some(opt(id)),
                None => None,
            },
            session: opt(self.session),
            messages_json: opt(self.messages_json),
            model: opt(self.model),
            allow_edits: self.allow_edits,
            permission_mode: self.permission_mode,
            stream: self.stream,
            no_tools: self.no_tools,
            no_mcp: self.no_mcp,
            compact: self.compact,
            tui: self.tui,
            print: self.print,
            effort: self.effort,
        }
    }
}

/// No flags at all.
pub open spec fn bare_args() -> ArgsV {
    ArgsV {
        prompt: None,
        continue_session: false,
        resume: None,
        session: None,
        messages_json: None,
        model: None,
        allow_edits: false,
        permission_mode: None,
        stream: false,
        no_tools: false,
        no_mcp: false,
        compact: false,
        tui: false,
        print: false,
        effort: EffortArgs { effort: None },
    }
}

/// Flags equivalent to `aster --resume <id>`.
pub fn resume_args(id: &str) -> (r: ChatArgs)
    ensures
        r@ == (ArgsV { resume: Some(Some(id@)), ..bare_args() }),
{
    ChatArgs {
        prompt: None,
        continue_session: false,
        resume: Some(Some(id.to_owned())),
        session: None,
        messages_json: None,
        model: None,
        allow_edits: false,
        permission_mode: None,
        stream: false,
        no_tools: false,
        no_mcp: false,
        compact: false,
        tui: false,
        print: false,
        effort: EffortArgs { effort: None },
    }
}

/// Which session a chat continues.
pub enum Resume {
    New,
    Latest,
    Id(String),
    Pick,
}

/// The model of which session a chat continues.
#[verifier::ext_equal]
pub enum ResumeV {
    New,
    Latest,
    Id(Seq<char>),
    Pick,
}

impl View for Resume {
    type V = ResumeV;

    open spec fn view(&self) -> ResumeV {
        match self {
            Resume::New => ResumeV::New,
            Resume::Latest => ResumeV::Latest,
            Resume::Id(id) => ResumeV::Id(id@),
            Resume::Pick => ResumeV::Pick,
        }
    }
}

/// Which session the flags continue: an id first, then a pick, then the latest.
pub open spec fn resume_of(a: ArgsV) -> ResumeV {
    match a.resume {
        Some(Some(id)) => ResumeV::Id(id),
        _ => match a.session {
            Some(id) => ResumeV::Id(id),
            None => if a.resume is Some {
                ResumeV::Pick
            } else if a.continue_session {
                ResumeV::Latest
            } else {
                ResumeV::New
            },
        },
    }
}

/// True when a flag forces one answer on plain output.
pub open spec fn one_shot(a: ArgsV, json: bool) -> bool {
    a.print || json || a.no_tools || a.stream || a.messages_json is Some
}

impl ChatArgs {
    /// Whether the chat opens the interactive UI: both ends are a terminal and
    /// no flag forces one-shot output.
    pub fn is_interactive(&self, json: bool, stdout_terminal: bool, stdin_terminal: bool) -> (r:
        bool)
        ensures
            r == (!one_shot(self@, json) && stdout_terminal && stdin_terminal),
    {
        let forced = self.print || json || self.no_tools || self.stream
            || self.messages_json.is_some();
        !forced && stdout_terminal && stdin_terminal
    }

    /// Which session the flags continue.
    pub fn resume_mode(&self) -> (r: Resume)
        ensures
            r@ == resume_of(self@),
    {
        match &self.resume {
            Some(Some(id)) => return Resume::Id(id.clone()),
            _ => {},
        }
        match &self.session {
            Some(id) => return Resume::Id(id.clone()),
            None => {},
        }
        if self.resume.is_some() {
            Resume::Pick
        } else if self.continue_session {
            Resume::Latest
        } else {
            Resume::New
        }
    }
}

/// Resuming by id continues that session.
pub proof fn resume_args_resume(id: Seq<char>)
    ensures
        resume_of(ArgsV { resume: Some(Some(id)), ..bare_args() }) == ResumeV::Id(id),
{
}

} // verus!
