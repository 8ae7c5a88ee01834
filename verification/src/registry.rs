//! The registry: the lookup table from backend name to backend handle,
//! built once at startup and treated as read-only thereafter. Besides the
//! name lookups it resolves the non-owning back-references models hand
//! out, failing explicitly once the referenced backend is gone.

use vstd::prelude::*;

use crate::chat::str_eq;
use crate::errors::Error;
use crate::ollama::{spec_prepared_url, url_normal, OllamaBackend, OllamaBackendModel,
    OllamaModelModel};

verus! {

/// The registry of all backends, keyed by their stable names. Only the
/// Ollama backend exists today.
pub struct BackendStore {
    /// The registered backends. The collection itself is never changed
    /// after startup; the backends inside are.
    pub backends: Vec<OllamaBackend>,
}

impl View for BackendStore {
    type V = Seq<OllamaBackendModel>;

    open spec fn view(&self) -> Seq<OllamaBackendModel> {
        self.backends.deep_view()
    }
}

/// The base URL used when no valid URL is stored in the settings.
pub open spec fn default_ollama_url() -> Seq<char> {
    "http://localhost:11434/api/"@
}

/// The base URL the Ollama backend is given: the stored one where it is a
/// valid URL, the default otherwise.
pub open spec fn spec_effective_url(stored: Option<Seq<char>>) -> Seq<char> {
    match stored {
        Some(s) => match url_normal(s) {
            Some(u) => u,
            None => default_ollama_url(),
        },
        None => default_ollama_url(),
    }
}

/// The base URL the Ollama backend is given, from the optionally stored
/// setting.
pub fn effective_ollama_url(stored: Option<&str>) -> (r: String)
    ensures
        r@ == spec_effective_url(
            match stored {
                Some(s) => Some(s@),
                None => None,
            },
        ),
{
    match stored {
        Some(s) => match crate::ollama::normalize_url(s) {
            Some(u) => u,
            None => "http://localhost:11434/api/".to_owned(),
        },
        None => "http://localhost:11434/api/".to_owned(),
    }
}

/// Builds the registry at startup: one Ollama backend at the effective
/// base URL, with the stored model-storage override, an empty catalog and
/// no owned process.
pub fn build_backend_store(stored_url: Option<&str>, models_path: Option<String>) -> (store:
    BackendStore)
    ensures
        store@.len() == 1,
        store@[0].api_url == spec_prepared_url(
            spec_effective_url(
                match stored_url {
                    Some(s) => Some(s@),
                    None => None,
                },
            ),
        ),
        store@[0].models == Seq::<OllamaModelModel>::empty(),
        store@[0].models_path == (match models_path {
            Some(p) => Some(p@),
            None => None::<Seq<char>>,
        }),
        !store@[0].owns_process,
{
    let url = effective_ollama_url(stored_url);
    let ollama = OllamaBackend::new(url, models_path);
    let ghost om = ollama@;
    let mut backends: Vec<OllamaBackend> = Vec::new();
    backends.push(ollama);
    let store = BackendStore { backends };
    proof {
        assert(store@.len() == 1 && store@[0] == om) by {
            assert(store.backends.deep_view()[0] == store.backends@[0].deep_view());
        }
    }
    store
}

impl BackendStore {
    /// Looks a backend up by its stable name. Fails — naming the unknown
    /// backend — exactly when no backend carries that name.
    pub fn get_backend(&self, name: &str) -> (r: Result<usize, Error>)
        ensures
            (name@ == "Ollama"@ && self@.len() > 0) ==> (r matches Ok(i) && i == 0),
            !(name@ == "Ollama"@ && self@.len() > 0) ==> (r matches Err(e) && e
                matches Error::BackendNotFound(n) && n@ == name@),
    {
        let mut i: usize = 0;
        while i < self.backends.len()
            invariant
                0 <= i <= self.backends.len(),
                i > 0 ==> name@ != "Ollama"@,
            decreases self.backends.len() - i,
        {
            if str_eq(name, self.backends[i].name()) {
                return Ok(i);
            }
            i += 1;
        }
        Err(Error::BackendNotFound(name.to_owned()))
    }

    /// The first model of the given name within a backend's catalog.
    pub open spec fn find_model(models: Seq<OllamaModelModel>, name: Seq<char>) -> Option<int>
        decreases models.len(),
    {
        if models.len() == 0 {
            None
        } else if models.first().info.name == name {
            Some(0)
        } else {
            match Self::find_model(models.drop_first(), name) {
                Some(j) => Some(j + 1),
                None => None,
            }
        }
    }

    /// Looks a model up by backend name and model name: succeeds — with the
    /// first model of that name — exactly when the named backend's catalog
    /// holds one. Fails with the unknown backend, or — naming both the
    /// model and the backend — exactly when the backend's catalog holds no
    /// model of that name.
    #[verifier::loop_isolation(false)]
    pub fn get_model(&self, backend_name: &str, model_name: &str) -> (r: Result<
        (usize, usize),
        Error,
    >)
        ensures
            r matches Ok((b, m)) ==> 0 <= b < self@.len() && Self::find_model(
                self@[b as int].models,
                model_name@,
            ) == Some(m as int),
            (backend_name@ == "Ollama"@ && self@.len() > 0 && Self::find_model(
                self@[0].models,
                model_name@,
            ) is Some) ==> (r matches Ok((b, m)) && b == 0 && Some(m as int) == Self::find_model(
                self@[0].models,
                model_name@,
            )),
            !(backend_name@ == "Ollama"@ && self@.len() > 0) ==> (r matches Err(e) && e
                matches Error::BackendNotFound(n) && n@ == backend_name@),
            (backend_name@ == "Ollama"@ && self@.len() > 0 && Self::find_model(
                self@[0].models,
                model_name@,
            ) is None) ==> (r matches Err(e) && e matches Error::ModelNotFound {
                model: m,
                backend: b,
            } && m@ == model_name@ && b@ == backend_name@),
    {
        let bidx = match self.get_backend(backend_name) {
            Ok(i) => i,
            Err(e) => {
                return Err(e);
            },
        };
        let models = self.backends[bidx].models();
        let ghost ms = self@[bidx as int].models;
        proof {
            assert(self.backends.deep_view()[bidx as int] == self.backends@[
                bidx as int
            ].deep_view());
            assert(ms.subrange(0, ms.len() as int) =~= ms);
        }
        let mut i: usize = 0;
        while i < models.len()
            invariant
                0 <= i <= models.len(),
                models.deep_view() == ms,
                Self::find_model(ms, model_name@) == (match Self::find_model(
                    ms.subrange(i as int, ms.len() as int),
                    model_name@,
                ) {
                    Some(j) => Some(j + i as int),
                    None => None,
                }),
            decreases models.len() - i,
        {
            proof {
                assert(models.deep_view()[i as int] == models@[i as int].deep_view());
            }
            if str_eq(models[i].info().name.as_str(), model_name) {
                proof {
                    let tail = ms.subrange(i as int, ms.len() as int);
                    assert(tail.first() == ms[i as int]);
                    assert(Self::find_model(tail, model_name@) == Some(0int));
                }
                return Ok((bidx, i));
            }
            proof {
                let tail = ms.subrange(i as int, ms.len() as int);
                assert(tail.first() == ms[i as int]);
                assert(tail.drop_first() =~= ms.subrange(i as int + 1, ms.len() as int));
            }
            i += 1;
        }
        proof {
            assert(ms.subrange(models.len() as int, ms.len() as int) =~= Seq::<
                OllamaModelModel,
            >::empty());
        }
        Err(
            Error::ModelNotFound {
                model: model_name.to_owned(),
                backend: backend_name.to_owned(),
            },
        )
    }

    /// Resolves a non-owning backend reference. Fails explicitly — rather
    /// than crashing — once the referenced backend is gone.
    pub fn resolve(&self, r: &BackendRef) -> (res: Result<&OllamaBackend, Error>)
        ensures
            r.index < self@.len() ==> (res matches Ok(b) && b@ == self@[r.index as int]),
            r.index >= self@.len() ==> (res matches Err(e) && e matches Error::Internal(m) && m@
                == "Backend is already disposed"@),
    {
        if r.index < self.backends.len() {
            proof {
                assert(self.backends.deep_view()[r.index as int] == self.backends@[
                    r.index as int
                ].deep_view());
            }
            Ok(&self.backends[r.index])
        } else {
            Err(crate::errors::internal("Backend is already disposed"))
        }
    }
}

/// A non-owning reference to a backend in the registry. Holding one never
/// keeps the backend alive; it must be resolved — which can fail — before
/// every use.
#[derive(Clone, Copy, Debug, PartialEq, Eq, Structural)]
pub struct BackendRef {
    pub index: usize,
}

} // verus!
