//! The controllers the local client knows, in the richer shape the current
//! client writes, with proxied Kubernetes endpoints.

use vstd::prelude::*;

use crate::error::JujuError;
use crate::kv::KVList;
use crate::strutil::{contains_seq, str_contains, str_eq};

verus! {

/// The kind of cloud a controller runs on.
#[derive(Debug, Clone, Copy, PartialEq, Eq, Structural)]
pub enum Substrate {
    CharmedK8s,
    MicroK8s,
    Unknown,
}

/// How many controller machines are active.
#[derive(Debug, Clone)]
pub struct ControllerMachines {
    pub active: u32,
    pub total: u32,
}

/// How the client reaches a controller that sits behind a Kubernetes
/// port-forward.
#[derive(Debug, Clone)]
pub struct KubernetesPortForwardConfig {
    pub api_host: String,
    pub ca_cert: String,
    pub namespace: String,
    pub remote_port: String,
    pub service: String,
    pub service_account_token: String,
}

/// How the client proxies its connection to a controller.
#[derive(Debug, Clone)]
pub enum ProxyConfig {
    KubernetesPortForward { config: KubernetesPortForwardConfig },
}

/// One controller of the local client configuration.
#[derive(Debug, Clone)]
pub struct Controller {
    pub active_controller_machine_count: u32,
    pub agent_version: String,
    pub api_endpoints: Vec<String>,
    pub ca_cert: String,
    pub cloud: String,
    pub controller_machine_count: u32,
    pub dns_cache: KVList<Vec<String>>,
    pub machine_count: u32,
    pub region: Option<String>,
    pub kind: Option<String>,
    pub uuid: String,
    pub proxy_config: Option<ProxyConfig>,
}

/// The local client's controller configuration document.
#[derive(Debug, Clone)]
pub struct ControllerYaml {
    pub current_controller: Option<String>,
    pub controllers: KVList<Controller>,
}

impl ControllerYaml {
    /// The named controller, or the current one when no name is given.
    /// Asking for nothing when no controller is active, or for a name that
    /// is not configured, is an error that says which of the two happened.
    pub fn get(&self, name: Option<&str>) -> (r: Result<&Controller, JujuError>)
        ensures
            name is None && self.current_controller is None ==> r matches Err(
                JujuError::NoActiveController,
            ),
            (match (name, &self.current_controller) {
                (Some(n), _) => (match self.controllers.spec_get(n@) {
                    Some(c) => r matches Ok(x) && *x == c,
                    None => r matches Err(JujuError::ControllerNotFound(m)) && m@ == n@,
                }),
                (None, Some(cc)) => (match self.controllers.spec_get(cc@) {
                    Some(c) => r matches Ok(x) && *x == c,
                    None => r matches Err(JujuError::ControllerNotFound(m)) && m@ == cc@,
                }),
                (None, None) => r is Err,
            }),
    {
        let n: &str = match name {
            Some(n) => n,
            None => match &self.current_controller {
                Some(cc) => cc.as_str(),
                None => {
                    return Err(JujuError::NoActiveController);
                },
            },
        };
        match self.controllers.get(n) {
            Some(c) => Ok(c),
            None => Err(JujuError::ControllerNotFound(n.to_owned())),
        }
    }

    /// The controller name the caller means: the one given, else the
    /// current one, else an error because none is active.
    pub fn validate_name(&self, name: Option<&str>) -> (r: Result<String, JujuError>)
        ensures
            (match (name, &self.current_controller) {
                (Some(n), _) => r matches Ok(s) && s@ == n@,
                (None, Some(cc)) => r matches Ok(s) && s@ == cc@,
                (None, None) => r matches Err(JujuError::NoActiveController),
            }),
    {
        match name {
            Some(n) => Ok(n.to_owned()),
            None => match &self.current_controller {
                Some(cc) => Ok(cc.clone()),
                None => Err(JujuError::NoActiveController),
            },
        }
    }

    /// Which kind of cloud the named controller runs on, judged from the
    /// platform's status report: a report that mentions a Kubernetes
    /// control-plane unit means the charmed Kubernetes distribution; a
    /// local region means MicroK8s; anything else is unknown.
    pub fn substrate(&self, name: &str, status_yaml: &str) -> (r: Result<Substrate, JujuError>)
        ensures
            (r is Ok) <==> self.controllers.contains_key(name@),
            r matches Ok(s) ==> {
                let c = self.controllers.spec_get(name@)->Some_0;
                s == (if contains_seq(status_yaml@, "kubernetes-master/0"@) {
                    Substrate::CharmedK8s
                } else if (c.region matches Some(reg) && reg@ == "localhost"@) {
                    Substrate::MicroK8s
                } else {
                    Substrate::Unknown
                })
            },
    {
        proof {
            crate::kv::lemma_get_from_contains(self.controllers.entries@, name@);
        }
        let controller = match self.get(Some(name)) {
            Ok(c) => c,
            Err(e) => {
                return Err(e);
            },
        };
        let is_cdk = str_contains(status_yaml, "kubernetes-master/0");
        if is_cdk {
            Ok(Substrate::CharmedK8s)
        } else {
            let local = match &controller.region {
                Some(reg) => str_eq(reg.as_str(), "localhost"),
                None => false,
            };
            if local {
                Ok(Substrate::MicroK8s)
            } else {
                Ok(Substrate::Unknown)
            }
        }
    }
}

} // verus!
