//! Connecting to a host that is named.

use vstd::prelude::*;
use vstd::string::*;
use crate::config::PortForwardingConfig;
use crate::config::PortForwardingView;
use crate::context::ContextView;
use crate::context::RuntimeContext;
use crate::error::BeamError;
use crate::error::Failure;
use crate::error::FailureView;
use crate::ssh::connect::get_tsh_command;
use crate::ssh::connect::spec_tsh_command;
use crate::teleport::node::node_views;
use crate::teleport::node::Node;
use crate::teleport::node::NodeView;

verus! {

/// What is done with the command line that connects.
#[derive(Debug, PartialEq, Eq)]
pub enum Launch {
    /// Nothing: the user chose no node.
    Nothing,
    /// The command line is printed.
    Print(Vec<String>),
    /// The command line is run.
    Run(Vec<String>),
}

/// What a `Launch` holds, the command line as sequences of characters.
pub enum LaunchView {
    Nothing,
    Print(Seq<Seq<char>>),
    Run(Seq<Seq<char>>),
}

impl View for Launch {
    type V = LaunchView;

    open spec fn view(&self) -> LaunchView {
        match self {
            Launch::Nothing => LaunchView::Nothing,
            Launch::Print(args) => LaunchView::Print(args.deep_view()),
            Launch::Run(args) => LaunchView::Run(args.deep_view()),
        }
    }
}

/// The port forwarding of the settings, none where they hold none.
pub open spec fn forwarding_of(context: ContextView) -> PortForwardingView {
    match context.config.port_forwarding_config {
        Some(forwarding) => forwarding,
        None => PortForwardingView::disabled(),
    }
}

/// What is done to reach `host` with the settings of `context`: the
/// command line is printed where the user asked for that, else it is run.
/// A failure names the profile that the settings come from.
pub open spec fn spec_launch(host: Seq<char>, context: ContextView) -> Result<
    LaunchView,
    FailureView,
> {
    match spec_tsh_command(
        host,
        context.config.username,
        context.profile_name,
        forwarding_of(context),
    ) {
        Err(e) => Err(e),
        Ok(args) => if context.tsh {
            Ok(LaunchView::Print(args))
        } else {
            Ok(LaunchView::Run(args))
        },
    }
}

/// What is done to reach `host` with the settings of `context`.
pub fn launch(host: &str, context: &RuntimeContext) -> (res: Result<Launch, Failure>)
    ensures
        match res {
            Ok(launch) => spec_launch(host@, context@) == Ok::<LaunchView, FailureView>(launch@),
            Err(f) => spec_launch(host@, context@) == Err::<LaunchView, FailureView>(f@),
        },
{
    let disabled = PortForwardingConfig::default();
    let forwarding = match &context.config.port_forwarding_config {
        Some(forwarding) => forwarding,
        None => &disabled,
    };
    match get_tsh_command(
        host,
        context.config.username.as_str(),
        context.meta.profile_name.as_str(),
        forwarding,
    ) {
        Err(e) => Err(e),
        Ok(args) => {
            if context.flags.tsh {
                Ok(Launch::Print(args))
            } else {
                Ok(Launch::Run(args))
            }
        },
    }
}

/// Whether one of the nodes has the host name `host`.
pub open spec fn lists_host(nodes: Seq<NodeView>, host: Seq<char>) -> bool {
    exists|i: int| 0 <= i < nodes.len() && (#[trigger] nodes[i]).hostname == host
}

/// Whether one of the nodes has the host name `host`.
pub fn has_host(nodes: &[Node], host: &str) -> (res: bool)
    ensures
        res == lists_host(node_views(nodes@), host@),
{
    let ghost v = node_views(nodes@);
    let wanted = String::from_str(host);
    let mut i: usize = 0;
    while i < nodes.len()
        invariant
            i <= nodes.len(),
            v == node_views(nodes@),
            wanted@ == host@,
            forall|j: int| 0 <= j < i ==> (#[trigger] v[j]).hostname != host@,
        decreases nodes.len() - i,
    {
        if nodes[i].spec.hostname == wanted {
            assert(v[i as int].hostname == host@);
            return true;
        }
        i = i + 1;
    }
    false
}

/// The request to connect to a host.
#[derive(Debug, PartialEq, Eq)]
pub struct Connect {
    /// The host to connect to.
    pub host: String,
}

impl Connect {
    /// What is done to connect, given `nodes`, the nodes of the directory:
    /// a host that is not among them is a failure, which names the host.
    pub open spec fn spec_run(self, context: ContextView, nodes: Seq<NodeView>) -> Result<
        LaunchView,
        FailureView,
    > {
        if lists_host(nodes, self.host@) {
            spec_launch(self.host@, context)
        } else {
            Err(FailureView { error: BeamError::HostNotFound, subject: self.host@ })
        }
    }

    /// What is done to connect: the host must be one of `nodes`, the nodes
    /// of the directory.
    pub fn run(&self, context: &RuntimeContext, nodes: &[Node]) -> (res: Result<Launch, Failure>)
        ensures
            match res {
                Ok(launch) => self.spec_run(context@, node_views(nodes@)) == Ok::<
                    LaunchView,
                    FailureView,
                >(launch@),
                Err(f) => self.spec_run(context@, node_views(nodes@)) == Err::<
                    LaunchView,
                    FailureView,
                >(f@),
            },
    {
        if !has_host(nodes, self.host.as_str()) {
            return Err(Failure::new(BeamError::HostNotFound, self.host.as_str()));
        }
        launch(self.host.as_str(), context)
    }
}

} // verus!
