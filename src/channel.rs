//! The two logical parties on the bus and their synthetic addresses.
use vstd::prelude::*;

verus! {

/// UDP port that marks traffic sent by the bus controller.
pub const CTRL_PORT: u16 = 422;

/// UDP port that marks traffic sent by a bus node.
pub const NODE_PORT: u16 = 1422;

/// A port that early capture producers used for node traffic; read as an
/// alias of [`NODE_PORT`].
pub const LEGACY_NODE_PORT: u16 = 1442;

/// Which party transmitted a run of bytes.
#[derive(Debug, Clone, Copy, PartialEq, Eq, Structural)]
pub enum UartTxChannel {
    /// The bus controller.
    Ctrl,
    /// A node answering the controller.
    Node,
}

impl UartTxChannel {
    /// The port that identifies this channel.
    pub open spec fn spec_port(self) -> u16 {
        match self {
            UartTxChannel::Ctrl => CTRL_PORT,
            UartTxChannel::Node => NODE_PORT,
        }
    }

    /// The port of the other channel.
    pub open spec fn spec_peer_port(self) -> u16 {
        match self {
            UartTxChannel::Ctrl => NODE_PORT,
            UartTxChannel::Node => CTRL_PORT,
        }
    }

    /// The port that identifies this channel as a sender.
    pub fn port(self) -> (r: u16)
        ensures
            r == self.spec_port(),
    {
        match self {
            UartTxChannel::Ctrl => CTRL_PORT,
            UartTxChannel::Node => NODE_PORT,
        }
    }

    /// The port of the other channel, used as the destination.
    pub fn peer_port(self) -> (r: u16)
        ensures
            r == self.spec_peer_port(),
    {
        match self {
            UartTxChannel::Ctrl => NODE_PORT,
            UartTxChannel::Node => CTRL_PORT,
        }
    }

    /// The other channel.
    pub open spec fn spec_other(self) -> UartTxChannel {
        match self {
            UartTxChannel::Ctrl => UartTxChannel::Node,
            UartTxChannel::Node => UartTxChannel::Ctrl,
        }
    }
}

/// The channel that a source port identifies, if any.
pub open spec fn spec_channel_of_port(port: u16) -> Option<UartTxChannel> {
    if port == CTRL_PORT {
        Some(UartTxChannel::Ctrl)
    } else if port == NODE_PORT || port == LEGACY_NODE_PORT {
        Some(UartTxChannel::Node)
    } else {
        None
    }
}

/// Maps a UDP source port back to the channel that sent the packet.
pub fn channel_of_port(port: u16) -> (r: Option<UartTxChannel>)
    ensures
        r == spec_channel_of_port(port),
{
    if port == CTRL_PORT {
        Some(UartTxChannel::Ctrl)
    } else if port == NODE_PORT || port == LEGACY_NODE_PORT {
        Some(UartTxChannel::Node)
    } else {
        None
    }
}

/// A channel's own port identifies it on reading, and the two channels use
/// swapped port pairs.
pub proof fn lemma_port_identifies_channel(ch: UartTxChannel)
    ensures
        spec_channel_of_port(ch.spec_port()) == Some(ch),
        ch.spec_peer_port() == ch.spec_other().spec_port(),
        ch.spec_port() == ch.spec_other().spec_peer_port(),
        ch.spec_port() != ch.spec_peer_port(),
{
}

} // verus!
