//! The models the local client knows, and how a model name on the command
//! line is understood.

use vstd::prelude::*;

use crate::error::JujuError;
use crate::kv::KVList;
use crate::strutil::{find_char, find_char_at};

verus! {

/// One model of the local client configuration.
#[derive(Debug, Clone)]
pub enum Model {
    Iaas { uuid: String, branch: Option<String> },
    Caas { uuid: String, branch: Option<String> },
}

/// The models one controller holds.
#[derive(Debug, Clone)]
pub struct Models {
    pub models: KVList<Model>,
    pub current_model: Option<String>,
}

/// The local client's model configuration document.
#[derive(Debug, Clone)]
pub struct ModelYaml {
    pub controllers: KVList<Models>,
}

/// The key a model is filed under: the administrator account qualifies
/// every model name.
pub open spec fn qualified_model(name: Seq<char>) -> Seq<char> {
    "admin/"@ + name
}

/// The model name inside the current-model text: what follows the first
/// slash, where there is one.
pub open spec fn current_model_name(cur: Seq<char>) -> Option<Seq<char>> {
    let p = find_char_at(cur, '/');
    if p < cur.len() {
        Some(cur.skip(p + 1))
    } else {
        None
    }
}

impl ModelYaml {
    /// The model name the caller means, for the named controller: a name
    /// that is given must be filed for that controller; when none is given
    /// the controller's current model is taken, if one can be read.
    pub fn validate_name(&self, controller: &str, model: Option<&str>) -> (r: Result<
        String,
        JujuError,
    >)
        ensures
            (match self.controllers.spec_get(controller@) {
                Option::None => r matches Err(JujuError::ControllerNotFound(c)) && c@
                    == controller@,
                Option::Some(models) => (match model {
                    Some(name) => (if models.models.contains_key(qualified_model(name@)) {
                        r matches Ok(s) && s@ == name@
                    } else {
                        r matches Err(JujuError::ModelNotFound(c, m)) && c@ == controller@ && m@
                            == name@
                    }),
                    None => (match &models.current_model {
                        Some(cur) => (match current_model_name(cur@) {
                            Some(tail) => r matches Ok(s) && s@ == tail,
                            None => r matches Err(JujuError::UnknownModel(c)) && c@ == controller@,
                        }),
                        None => r matches Err(JujuError::UnknownModel(c)) && c@ == controller@,
                    }),
                }),
            }),
    {
        let models = match self.controllers.get(controller) {
            Some(m) => m,
            None => {
                return Err(JujuError::ControllerNotFound(controller.to_owned()));
            },
        };
        match model {
            Some(name) => {
                let mut full_name = "admin/".to_owned();
                full_name.append(name);
                proof {
                    assert(full_name@ == qualified_model(name@));
                }
                if models.models.has_key(full_name.as_str()) {
                    Ok(name.to_owned())
                } else {
                    Err(JujuError::ModelNotFound(controller.to_owned(), name.to_owned()))
                }
            },
            None => match &models.current_model {
                Some(cur) => {
                    let n = cur.as_str().unicode_len();
                    let p = find_char(cur.as_str(), '/');
                    if p < n {
                        Ok(cur.as_str().substring_char(p + 1, n).to_owned())
                    } else {
                        Err(JujuError::UnknownModel(controller.to_owned()))
                    }
                },
                None => Err(JujuError::UnknownModel(controller.to_owned())),
            },
        }
    }
}

/// How a `controller:model` argument is understood: an empty text names
/// nothing; a text without a colon names only a model; a colon splits the
/// controller from the model.
pub fn parse_model_name(model_name: &str) -> (r: (Option<String>, Option<String>))
    ensures
        model_name@.len() == 0 ==> r.0 is None && r.1 is None,
        model_name@.len() > 0 ==> {
            let p = find_char_at(model_name@, ':');
            if p < model_name@.len() {
                (r.0 matches Some(c) && c@ == model_name@.take(p)) && (r.1 matches Some(m) && m@
                    == model_name@.skip(p + 1))
            } else {
                r.0 is None && (r.1 matches Some(m) && m@ == model_name@)
            }
        },
{
    let n = model_name.unicode_len();
    if n == 0 {
        return (Option::None, Option::None);
    }
    let p = find_char(model_name, ':');
    if p < n {
        (
            Option::Some(model_name.substring_char(0, p).to_owned()),
            Option::Some(model_name.substring_char(p + 1, n).to_owned()),
        )
    } else {
        (Option::None, Option::Some(model_name.to_owned()))
    }
}

} // verus!
