//! The controllers the local client knows, as its configuration reports
//! them, and which kind of cloud a controller runs on.

use vstd::prelude::*;

use crate::kv::KVList;
use crate::strutil::{contains_seq, str_contains, str_eq};

verus! {

/// The kind of cloud a controller runs on.
#[derive(Debug, Clone, Copy, PartialEq, Eq, Structural)]
pub enum Substrate {
    CDK,
    MicroK8s,
    Unknown,
}

/// How many controller machines are active.
#[derive(Debug, Clone)]
pub struct ControllerMachines {
    pub active: u32,
    pub total: u32,
}

/// One controller of the local client configuration.
#[derive(Debug, Clone)]
pub struct Controller {
    pub active_controller_machine_count: u32,
    pub agent_version: String,
    pub api_endpoints: Vec<String>,
    pub ca_cert: String,
    pub cloud: String,
    pub controller_machine_count: u32,
    pub machine_count: u32,
    pub region: String,
    pub uuid: String,
    pub name: String,
}

/// The local client's controller configuration.
#[derive(Debug, Clone)]
pub struct Controllers {
    pub current_controller: String,
    pub controllers: KVList<Controller>,
}

/// The name a lookup goes by: the one asked for, or the current controller.
pub open spec fn lookup_name(asked: Option<&str>, current: Seq<char>) -> Seq<char> {
    match asked {
        Some(n) => n@,
        None => current,
    }
}

impl Controllers {
    /// The named controller, or the current one when no name is given;
    /// unknown names are an error that names them.
    pub fn get(&self, name: Option<&str>) -> (r: Result<&Controller, String>)
        ensures
            (r is Ok) <==> self.controllers.contains_key(
                lookup_name(name, self.current_controller@),
            ),
            r matches Ok(c) ==> self.controllers.spec_get(
                lookup_name(name, self.current_controller@),
            ) == Some(*c),
            r matches Err(e) ==> e@ == "Unknown controller "@ + lookup_name(
                name,
                self.current_controller@,
            ),
    {
        let n: &str = match name {
            Some(n) => n,
            None => self.current_controller.as_str(),
        };
        match self.controllers.get(n) {
            Some(c) => Ok(c),
            None => {
                let mut msg = "Unknown controller ".to_owned();
                msg.append(n);
                Err(msg)
            },
        }
    }

    /// Which kind of cloud the named controller runs on, judged from the
    /// platform's status report: a report that mentions a Kubernetes
    /// control-plane unit means the charmed Kubernetes distribution; a
    /// local region means MicroK8s; anything else is unknown.
    pub fn substrate(&self, name: &str, status_yaml: &str) -> (r: Result<Substrate, String>)
        ensures
            (r is Ok) <==> self.controllers.contains_key(name@),
            r matches Ok(s) ==> {
                let c = self.controllers.spec_get(name@)->Some_0;
                s == (if contains_seq(status_yaml@, "kubernetes-master/0"@) {
                    Substrate::CDK
                } else if c.region@ == "localhost"@ {
                    Substrate::MicroK8s
                } else {
                    Substrate::Unknown
                })
            },
    {
        let controller = self.get(Some(name))?;
        let is_cdk = str_contains(status_yaml, "kubernetes-master/0");
        if is_cdk {
            Ok(Substrate::CDK)
        } else if str_eq(controller.region.as_str(), "localhost") {
            Ok(Substrate::MicroK8s)
        } else {
            Ok(Substrate::Unknown)
        }
    }
}

} // verus!
