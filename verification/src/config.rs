//! The launcher's configuration: the browsers by identifier, and the
//! rules that pick one of them for a URL.

use vstd::prelude::*;
use indexmap::IndexMap;
use crate::pattern::{UrlModel, UrlParts};
use crate::rules::{resolve, resolve_spec, rule_views, MatchRule};
use crate::text::same_text;

verus! {

/// A browser that the launcher can start.
#[derive(Debug, Eq)]
pub struct Browser {
    /// The name shown to the user.
    pub name: String,
    /// The program to run.
    pub command: String,
    /// The path of an icon, if there is one.
    pub icon: Option<String>,
}

/// What a `Browser` stands for.
pub struct BrowserModel {
    pub name: Seq<char>,
    pub command: Seq<char>,
    pub icon: Option<Seq<char>>,
}

impl View for Browser {
    type V = BrowserModel;

    open spec fn view(&self) -> BrowserModel {
        BrowserModel {
            name: self.name@,
            command: self.command@,
            icon: match self.icon {
                Some(icon) => Some(icon@),
                None => None,
            },
        }
    }
}

/// Two browsers are equal when name, command and icon are the same.
impl PartialEq for Browser {
    fn eq(&self, other: &Browser) -> (same: bool) {
        same_text(self.name.as_str(), other.name.as_str()) && same_text(
            self.command.as_str(),
            other.command.as_str(),
        ) && match (&self.icon, &other.icon) {
            (Some(a), Some(b)) => same_text(a.as_str(), b.as_str()),
            (None, None) => true,
            _ => false,
        }
    }
}

impl vstd::std_specs::cmp::PartialEqSpecImpl for Browser {
    open spec fn obeys_eq_spec() -> bool {
        true
    }

    open spec fn eq_spec(&self, other: &Browser) -> bool {
        self@ == other@
    }
}

impl Clone for Browser {
    fn clone(&self) -> (copy: Browser)
        ensures
            copy@ == self@,
    {
        Browser {
            name: self.name.clone(),
            command: self.command.clone(),
            icon: match &self.icon {
                Some(icon) => Some(icon.clone()),
                None => None,
            },
        }
    }
}

#[verifier::external_type_specification]
#[verifier::external_body]
#[verifier::reject_recursive_types(K)]
#[verifier::reject_recursive_types(V)]
#[verifier::reject_recursive_types(S)]
pub struct ExIndexMap<K, V, S>(IndexMap<K, V, S>);

/// The browsers that a map holds, by identifier.
pub uninterp spec fn browsers_of(map: IndexMap<String, Browser>) -> Map<Seq<char>, BrowserModel>;

/// Calls `IndexMap::get`, which returns the value stored for the key if
/// the map holds the key, else `None`. Not proved. Two `String` keys are
/// the same key exactly when they hold the same characters.
#[verifier::external_body]
fn get_browser<'a>(map: &'a IndexMap<String, Browser>, id: &String) -> (found: Option<&'a Browser>)
    ensures
        match found {
            Some(browser) => browsers_of(*map).contains_key(id@) && browsers_of(*map)[id@]
                == browser@,
            None => !browsers_of(*map).contains_key(id@),
        },
{
    map.get(id)
}

/// The launcher's configuration.
pub struct Config {
    pub always_on_top: bool,
    /// The browsers by identifier, in the order in which they are shown.
    pub browsers: IndexMap<String, Browser>,
    /// The rules, in the order in which they are tried.
    pub rules: Vec<MatchRule>,
}

/// The configuration after an attempt to load it again. What was loaded
/// takes the place of the old configuration as a whole; where nothing
/// could be loaded, the old one stays as it was.
pub fn reload(current: Option<Config>, loaded: Option<Config>) -> (next: Option<Config>)
    ensures
        next == if loaded is Some {
            loaded
        } else {
            current
        },
{
    match loaded {
        Some(config) => Some(config),
        None => current,
    }
}

impl Config {
    /// The browsers by identifier.
    pub open spec fn browsers(&self) -> Map<Seq<char>, BrowserModel> {
        browsers_of(self.browsers)
    }

    /// The browser that opens the URL without asking: the one that the
    /// first matching rule names, if the configuration has a browser of
    /// that identifier.
    pub open spec fn chosen(&self, url: UrlModel) -> Option<BrowserModel> {
        match resolve_spec(rule_views(self.rules@), url) {
            Some(id) => if self.browsers().contains_key(id) {
                Some(self.browsers()[id])
            } else {
                None
            },
            None => None,
        }
    }

    /// The browser that opens the URL without asking; `None` where the
    /// user is to choose.
    pub fn match_browser(&self, url: &UrlParts) -> (browser: Option<&Browser>)
        ensures
            match self.chosen(url@) {
                Some(b) => browser matches Some(found) && found@ == b,
                None => browser is None,
            },
    {
        match resolve(self.rules.as_slice(), url) {
            Some(id) => get_browser(&self.browsers, id),
            None => None,
        }
    }

    /// Goes through a queue of URLs from place `from` on and gives, for
    /// each URL that is opened without asking, its browser. The run ends
    /// before the first URL that is left to the user, or with the queue.
    pub fn auto_open<'a>(&'a self, urls: &[UrlParts], from: usize) -> (browsers: Vec<&'a Browser>)
        ensures
            from < urls@.len() ==> from + browsers@.len() <= urls@.len(),
            from >= urls@.len() ==> browsers@.len() == 0,
            forall|k: int|
                0 <= k < browsers@.len() ==> self.chosen(urls@[from + k]@) == Some(
                    (#[trigger] browsers@[k])@,
                ),
            from + browsers@.len() < urls@.len() ==> self.chosen(
                urls@[from + browsers@.len()]@,
            ) is None,
    {
        let mut browsers: Vec<&'a Browser> = Vec::new();
        let mut i: usize = from;
        while i < urls.len()
            invariant
                from <= i,
                from < urls@.len() ==> i <= urls@.len(),
                from >= urls@.len() ==> i == from,
                i == from + browsers@.len(),
                forall|k: int|
                    0 <= k < browsers@.len() ==> self.chosen(urls@[from + k]@) == Some(
                        (#[trigger] browsers@[k])@,
                    ),
            decreases urls@.len() - i,
        {
            match self.match_browser(&urls[i]) {
                Some(browser) => {
                    browsers.push(browser);
                },
                None => {
                    return browsers;
                },
            }
            i += 1;
        }
        browsers
    }
}

} // verus!
