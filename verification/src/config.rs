use vstd::prelude::*;

verus! {

/// The entry an MCP client needs to launch the authoring service for one
/// workspace: the name it is registered under, and the command line.
#[derive(Debug, Clone)]
pub struct ClientConfig {
    pub server_name: String,
    pub command: String,
    pub args: Vec<String>,
}

/// The client entry that binds the authoring service to the workspace at
/// `root` (already made canonical by the caller).
pub fn client_config(root: &str) -> (config: ClientConfig)
    ensures
        config.server_name@ == "forall-author"@,
        config.command@ == "forall"@,
        config.args@.len() == 3,
        config.args@[0]@ == "mcp-author"@,
        config.args@[1]@ == "--root"@,
        config.args@[2]@ == root@,
{
    let mut args: Vec<String> = Vec::new();
    args.push(String::from_str("mcp-author"));
    args.push(String::from_str("--root"));
    args.push(String::from_str(root));
    ClientConfig {
        server_name: String::from_str("forall-author"),
        command: String::from_str("forall"),
        args,
    }
}

} // verus!
