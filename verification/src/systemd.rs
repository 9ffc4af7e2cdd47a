//! Service installation: the validity rule for its flags, and the exact
//! text of the user service unit, parameterized by the binary's path. The
//! surrounding program writes the file and talks to the service manager.

use vstd::prelude::*;

verus! {

/// Installation flags are valid unless immediate start is requested without
/// enabling the service.
pub fn install_flags_ok(enable: bool, now: bool) -> (r: bool)
    ensures
        r == !(now && !enable),
{
    !(now && !enable)
}

/// The text of the user service unit for a binary at this path.
pub open spec fn service_unit_text_spec(binary_path: Seq<char>) -> Seq<char> {
    "[Unit]\nDescription=PipeWire Web Remote Service\nDocumentation=https://github.com/oudeis01/pipewire-web-remote\nAfter=pipewire.service\nRequires=pipewire.service\n\n[Service]\nType=simple\nExecStart="@
        + binary_path
        + " --listen 127.0.0.1:8449\nRestart=on-failure\nRestartSec=5\n\nNoNewPrivileges=yes\nPrivateTmp=yes\n\n[Install]\nWantedBy=default.target\n"@
}

/// Renders the user service unit for a binary at this path.
pub fn service_unit_text(binary_path: &str) -> (r: String)
    ensures
        r@ == service_unit_text_spec(binary_path@),
{
    let mut s =
        "[Unit]\nDescription=PipeWire Web Remote Service\nDocumentation=https://github.com/oudeis01/pipewire-web-remote\nAfter=pipewire.service\nRequires=pipewire.service\n\n[Service]\nType=simple\nExecStart=".to_owned();
    s.append(binary_path);
    s.append(
        " --listen 127.0.0.1:8449\nRestart=on-failure\nRestartSec=5\n\nNoNewPrivileges=yes\nPrivateTmp=yes\n\n[Install]\nWantedBy=default.target\n",
    );
    s
}

} // verus!
