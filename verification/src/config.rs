use vstd::prelude::*;

verus! {

/// One candidate upstream, as configured: a display name and an
/// unresolved `host:port` string, re-resolved every probing round.
#[derive(Debug)]
pub struct TargetSpec {
    pub name: String,
    pub addr: String,
}

impl Clone for TargetSpec {
    fn clone(&self) -> (r: Self)
        ensures
            r == *self,
    {
        TargetSpec { name: self.name.clone(), addr: self.addr.clone() }
    }
}

/// The resolved configuration the core consumes: where to listen, the
/// candidate targets in priority order, the pause between probing rounds,
/// and the optional proxy-header switch.
#[derive(Debug)]
pub struct Config {
    pub bind_addr: String,
    pub targets: Vec<TargetSpec>,
    pub update_interval_secs: u64,
    pub proxy_protocol: Option<String>,
}

impl Config {
    /// Header tagging is on exactly when the configuration names protocol
    /// version "v2"; any other value, or none, leaves it off.
    pub fn header_enabled(&self) -> (r: bool)
        ensures
            r <==> (self.proxy_protocol matches Some(p) && p@ == "v2"@),
    {
        match &self.proxy_protocol {
            None => false,
            Some(p) => {
                let v2: String = "v2".to_owned();
                *p == v2
            }
        }
    }
}

} // verus!
