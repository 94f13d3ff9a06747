//! Request URL assembly for the two generations of the upstream endpoint.

use vstd::prelude::*;
use vstd::string::StrSliceExecFns;
use vstd::string::StringExecFns;

use crate::catalog::MensaPlace;
use crate::catalog::spec_id;

verus! {

/// One version of the upstream API. A generation is a configuration — its
/// own base URL, default parameters, parameter names and XML nesting — not a
/// separate type hierarchy.
#[derive(Debug, Clone, Copy, PartialEq, Eq, Structural)]
pub enum Generation {
    /// The generation in service today: `tx_swfrspeiseplan_pi1` parameters
    /// with defaults `id=1400&type=98`, day plans nested under the `ort`
    /// element of the response.
    Current,
    /// The earlier generation: `tx_speiseplan_pi1` parameters with default
    /// `type=98`, its own base path, day plans nested under the `mensa`
    /// element of the response.
    Legacy,
}

/// The base endpoint URL of a generation.
pub open spec fn spec_base_url(g: Generation) -> Seq<char> {
    match g {
        Generation::Current => "https://www.swfr.de/index.php"@,
        Generation::Legacy => "https://www.swfr.de/apispeiseplan"@,
    }
}

/// The default query parameters of a generation, already joined by `&`.
pub open spec fn spec_default_query(g: Generation) -> Seq<char> {
    match g {
        Generation::Current => "id=1400&type=98"@,
        Generation::Legacy => "type=98"@,
    }
}

/// The name of the location parameter of a generation.
pub open spec fn spec_ort_param(g: Generation) -> Seq<char> {
    match g {
        Generation::Current => "tx_swfrspeiseplan_pi1[ort]"@,
        Generation::Legacy => "tx_speiseplan_pi1[ort]"@,
    }
}

/// The name of the API key parameter of a generation.
pub open spec fn spec_key_param(g: Generation) -> Seq<char> {
    match g {
        Generation::Current => "tx_swfrspeiseplan_pi1[apiKey]"@,
        Generation::Legacy => "tx_speiseplan_pi1[apiKey]"@,
    }
}

impl Generation {
    /// The base endpoint URL of this generation.
    pub fn base_url(&self) -> (r: &'static str)
        ensures
            r@ == spec_base_url(*self),
    {
        match *self {
            Generation::Current => "https://www.swfr.de/index.php",
            Generation::Legacy => "https://www.swfr.de/apispeiseplan",
        }
    }

    /// The default query parameters of this generation.
    pub fn default_query(&self) -> (r: &'static str)
        ensures
            r@ == spec_default_query(*self),
    {
        match *self {
            Generation::Current => "id=1400&type=98",
            Generation::Legacy => "type=98",
        }
    }

    /// The name of the location parameter of this generation.
    pub fn ort_param(&self) -> (r: &'static str)
        ensures
            r@ == spec_ort_param(*self),
    {
        match *self {
            Generation::Current => "tx_swfrspeiseplan_pi1[ort]",
            Generation::Legacy => "tx_speiseplan_pi1[ort]",
        }
    }

    /// The name of the API key parameter of this generation.
    pub fn key_param(&self) -> (r: &'static str)
        ensures
            r@ == spec_key_param(*self),
    {
        match *self {
            Generation::Current => "tx_swfrspeiseplan_pi1[apiKey]",
            Generation::Legacy => "tx_speiseplan_pi1[apiKey]",
        }
    }
}

/// A query string with one more `name=value` pair appended: pairs are joined
/// by `&`, name and value by `=`, and no leading delimiter is emitted when
/// the query is still empty.
pub open spec fn spec_with_param(q: Seq<char>, name: Seq<char>, value: Seq<char>) -> Seq<char> {
    if q.len() == 0 {
        name + "="@ + value
    } else {
        q + "&"@ + name + "="@ + value
    }
}

/// The abstract state of a [`UrlBuilder`].
#[verifier::ext_equal]
pub ghost struct UrlBuilderView {
    pub api_key: Seq<char>,
    pub generation: Generation,
    pub query: Seq<char>,
}

/// Assembles the request URL for one location: the generation's default
/// parameters, then the location identifier, then the API key.
pub struct UrlBuilder {
    api_key: String,
    generation: Generation,
    query: String,
}

impl View for UrlBuilder {
    type V = UrlBuilderView;

    closed spec fn view(&self) -> UrlBuilderView {
        UrlBuilderView { api_key: self.api_key@, generation: self.generation, query: self.query@ }
    }
}

impl UrlBuilder {
    /// A builder for `generation`, starting from its default parameters.
    pub fn for_generation(generation: Generation, api_key: &str) -> (r: UrlBuilder)
        ensures
            r@ == (UrlBuilderView {
                api_key: api_key@,
                generation,
                query: spec_default_query(generation),
            }),
    {
        UrlBuilder {
            api_key: String::from_str(api_key),
            generation,
            query: String::from_str(generation.default_query()),
        }
    }

    /// A builder for the current generation, starting from its default
    /// parameters.
    pub fn new(api_key: &str) -> (r: UrlBuilder)
        ensures
            r@ == (UrlBuilderView {
                api_key: api_key@,
                generation: Generation::Current,
                query: spec_default_query(Generation::Current),
            }),
    {
        UrlBuilder::for_generation(Generation::Current, api_key)
    }

    /// A builder for the current generation with no parameters at all.
    pub fn new_empty_query(api_key: &str) -> (r: UrlBuilder)
        ensures
            r@ == (UrlBuilderView {
                api_key: api_key@,
                generation: Generation::Current,
                query: Seq::<char>::empty(),
            }),
    {
        UrlBuilder {
            api_key: String::from_str(api_key),
            generation: Generation::Current,
            query: String::new(),
        }
    }

    /// Appends one `name=value` pair to the query string.
    pub fn add_query_para(&mut self, name: &str, value: &str)
        ensures
            final(self)@ == (UrlBuilderView {
                query: spec_with_param(old(self)@.query, name@, value@),
                ..old(self)@
            }),
    {
        if self.query.as_str().is_empty() {
            let mut q = String::from_str(name);
            q.append("=");
            q.append(value);
            self.query = q;
            proof {
                assert(self@ =~= (UrlBuilderView {
                    query: spec_with_param(old(self)@.query, name@, value@),
                    ..old(self)@
                }));
            }
        } else {
            self.query.append("&");
            self.query.append(name);
            self.query.append("=");
            self.query.append(value);
            proof {
                assert(self@ =~= (UrlBuilderView {
                    query: spec_with_param(old(self)@.query, name@, value@),
                    ..old(self)@
                }));
            }
        }
    }

    /// Appends the location parameter for `place`.
    pub fn set_place(&mut self, place: &MensaPlace)
        ensures
            final(self)@ == (UrlBuilderView {
                query: spec_with_param(
                    old(self)@.query,
                    spec_ort_param(old(self)@.generation),
                    spec_id(*place),
                ),
                ..old(self)@
            }),
    {
        let generation = self.generation;
        let id = place.id();
        self.add_query_para(generation.ort_param(), id.as_str());
    }

    /// Appends the API key parameter and returns the complete absolute URL:
    /// the generation's base URL, `?`, and the assembled query string.
    pub fn build(&mut self) -> (r: String)
        ensures
            final(self)@ == (UrlBuilderView {
                query: spec_with_param(
                    old(self)@.query,
                    spec_key_param(old(self)@.generation),
                    old(self)@.api_key,
                ),
                ..old(self)@
            }),
            r@ == spec_base_url(old(self)@.generation) + "?"@ + final(self)@.query,
    {
        let generation = self.generation;
        let key = self.api_key.clone();
        self.add_query_para(generation.key_param(), key.as_str());
        let mut url = String::from_str(generation.base_url());
        url.append("?");
        url.append(self.query.as_str());
        url
    }
}

} // verus!
