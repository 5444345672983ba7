use vstd::prelude::*;

verus! {

/// The kinds of A/B parameter documents.
#[derive(Clone, Copy, Debug, PartialEq, Eq)]
pub enum AbType {
    Fill,
    Show,
    Click,
}

/// The kinds of range-signal files.
#[derive(Clone, Copy, Debug, PartialEq, Eq)]
pub enum SignalType {
    TemptClick,
    FillRate,
    ShowRate,
    ClickRate,
}

/// The loader that a run performs.
#[derive(Debug, PartialEq, Eq)]
#[allow(inconsistent_fields)]
pub enum Command {
    /// A/B parameters of one kind.
    AbParams { types: AbType },
    /// The default action choice of each ad.
    ActionChoice,
    /// The per-version action scores.
    ActionScore,
    /// The target CTR of each action.
    ActionValue,
    /// Range signals of one kind.
    RangeSignal { types: SignalType },
}

/// What a run is given: the loader, where the store is and which file to load.
#[derive(Debug, PartialEq, Eq)]
pub struct Cli {
    pub command: Command,
    /// Store address, `host:port`.
    pub redis_addr: String,
    /// Store password; empty for none.
    pub redis_pwd: String,
    /// The file to load.
    pub file: String,
    /// A notification webhook, unused by the loaders.
    pub feishu_url: Option<String>,
}

/// The lower-case name of a kind, as it stands in field names.
pub open spec fn ab_type_name(t: AbType) -> Seq<char> {
    match t {
        AbType::Fill => "fill"@,
        AbType::Show => "show"@,
        AbType::Click => "click"@,
    }
}

impl AbType {
    /// The lower-case name of the kind.
    pub fn name(&self) -> (r: String)
        ensures
            r@ == ab_type_name(*self),
    {
        match self {
            AbType::Fill => String::from_str("fill"),
            AbType::Show => String::from_str("show"),
            AbType::Click => String::from_str("click"),
        }
    }
}

/// The connection URL of the store at `addr`.
pub open spec fn redis_url_of(addr: Seq<char>) -> Seq<char> {
    "redis://"@ + addr
}

/// The connection URL of the store at `addr` (`host:port`).
pub fn redis_url(addr: &str) -> (r: String)
    ensures
        r@ == redis_url_of(addr@),
{
    let s = String::from_str("redis://");
    s.concat(addr)
}

} // verus!
