//! The hint-protocol atoms this window manager reads or exports.

use vstd::prelude::*;

verus! {

/// Atoms of the hints protocol that the manager understands.
#[derive(Clone, Copy, Debug, PartialEq, Eq, Structural)]
pub enum X11Atom {
    NetActiveWindow,
    NetClientList,
    NetClientListStacking,
    NetCurrentDesktop,
    NetDesktopNames,
    NetNumberOfDesktops,
    NetSupported,
    NetWMState,
    NetWMStateFullscreen,
    NetWMWindowType,
    NetWMWindowTypeDesktop,
    NetWMWindowTypeDock,
    WMDeleteWindow,
    WMName,
    WMProtocols,
    WMState,
}

impl X11Atom {
    /// The protocol-level name of the atom.
    pub open spec fn spec_name(&self) -> Seq<char> {
        match self {
            X11Atom::NetActiveWindow => "_NET_ACTIVE_WINDOW"@,
            X11Atom::NetClientList => "_NET_CLIENT_LIST"@,
            X11Atom::NetClientListStacking => "_NET_CLIENT_LIST_STACKING"@,
            X11Atom::NetCurrentDesktop => "_NET_CURRENT_DESKTOP"@,
            X11Atom::NetDesktopNames => "_NET_DESKTOP_NAMES"@,
            X11Atom::NetNumberOfDesktops => "_NET_NUMBER_OF_DESKTOPS"@,
            X11Atom::NetSupported => "_NET_SUPPORTED"@,
            X11Atom::NetWMState => "_NET_WM_STATE"@,
            X11Atom::NetWMStateFullscreen => "_NET_WM_STATE_FULLSCREEN"@,
            X11Atom::NetWMWindowType => "_NET_WM_WINDOW_TYPE"@,
            X11Atom::NetWMWindowTypeDesktop => "_NET_WM_WINDOW_TYPE_DESKTOP"@,
            X11Atom::NetWMWindowTypeDock => "_NET_WM_WINDOW_TYPE_DOCK"@,
            X11Atom::WMDeleteWindow => "WM_DELETE_WINDOW"@,
            X11Atom::WMName => "WM_NAME"@,
            X11Atom::WMProtocols => "WM_PROTOCOLS"@,
            X11Atom::WMState => "WM_STATE"@,
        }
    }

    pub fn name(&self) -> (r: &'static str)
        ensures
            r@ == self.spec_name(),
    {
        match self {
            X11Atom::NetActiveWindow => "_NET_ACTIVE_WINDOW",
            X11Atom::NetClientList => "_NET_CLIENT_LIST",
            X11Atom::NetClientListStacking => "_NET_CLIENT_LIST_STACKING",
            X11Atom::NetCurrentDesktop => "_NET_CURRENT_DESKTOP",
            X11Atom::NetDesktopNames => "_NET_DESKTOP_NAMES",
            X11Atom::NetNumberOfDesktops => "_NET_NUMBER_OF_DESKTOPS",
            X11Atom::NetSupported => "_NET_SUPPORTED",
            X11Atom::NetWMState => "_NET_WM_STATE",
            X11Atom::NetWMStateFullscreen => "_NET_WM_STATE_FULLSCREEN",
            X11Atom::NetWMWindowType => "_NET_WM_WINDOW_TYPE",
            X11Atom::NetWMWindowTypeDesktop => "_NET_WM_WINDOW_TYPE_DESKTOP",
            X11Atom::NetWMWindowTypeDock => "_NET_WM_WINDOW_TYPE_DOCK",
            X11Atom::WMDeleteWindow => "WM_DELETE_WINDOW",
            X11Atom::WMName => "WM_NAME",
            X11Atom::WMProtocols => "WM_PROTOCOLS",
            X11Atom::WMState => "WM_STATE",
        }
    }
}

/// The hints this window manager advertises as supported on its control window.
pub fn supported_atoms() -> (r: Vec<X11Atom>)
    ensures
        r@ == seq![
            X11Atom::NetActiveWindow,
            X11Atom::NetClientList,
            X11Atom::NetClientListStacking,
            X11Atom::NetCurrentDesktop,
            X11Atom::NetDesktopNames,
            X11Atom::NetNumberOfDesktops,
            X11Atom::NetSupported,
            X11Atom::NetWMWindowType,
            X11Atom::NetWMWindowTypeDock,
            X11Atom::NetWMWindowTypeDesktop,
        ],
{
    let mut v: Vec<X11Atom> = Vec::new();
    v.push(X11Atom::NetActiveWindow);
    v.push(X11Atom::NetClientList);
    v.push(X11Atom::NetClientListStacking);
    v.push(X11Atom::NetCurrentDesktop);
    v.push(X11Atom::NetDesktopNames);
    v.push(X11Atom::NetNumberOfDesktops);
    v.push(X11Atom::NetSupported);
    v.push(X11Atom::NetWMWindowType);
    v.push(X11Atom::NetWMWindowTypeDock);
    v.push(X11Atom::NetWMWindowTypeDesktop);
    proof {
        assert(v@ =~= seq![
            X11Atom::NetActiveWindow,
            X11Atom::NetClientList,
            X11Atom::NetClientListStacking,
            X11Atom::NetCurrentDesktop,
            X11Atom::NetDesktopNames,
            X11Atom::NetNumberOfDesktops,
            X11Atom::NetSupported,
            X11Atom::NetWMWindowType,
            X11Atom::NetWMWindowTypeDock,
            X11Atom::NetWMWindowTypeDesktop,
        ]);
    }
    v
}

} // verus!
