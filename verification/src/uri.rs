//! Parsing of resource paths of the form
//! `/{service}/apis/{group}/{version}/namespaces/{ns}/{resource}/{name}/op/{op}`.

use vstd::prelude::*;

use crate::parse::find_char;
use crate::text::str_eq;

verus! {

/// Which family of interface a path addresses.
#[derive(Clone, Copy, Debug, PartialEq, Eq, Structural)]
pub enum ApiType {
    API,
    APIS,
}

/// A parsed resource path.
#[derive(Debug)]
pub struct Uri {
    pub service: String,
    pub api_type: ApiType,
    pub api_group: String,
    pub api_version: String,
    pub ns: Option<String>,
    pub resource_type: String,
    pub resource_name: Option<String>,
    pub op: Option<String>,
}

/// The model of a parsed resource path.
pub struct UriView {
    pub service: Seq<char>,
    pub api_type: ApiType,
    pub api_group: Seq<char>,
    pub api_version: Seq<char>,
    pub ns: Option<Seq<char>>,
    pub resource_type: Seq<char>,
    pub resource_name: Option<Seq<char>>,
    pub op: Option<Seq<char>>,
}

/// The view of an optional string.
pub open spec fn opt_view(o: Option<String>) -> Option<Seq<char>> {
    match o {
        Some(s) => Some(s@),
        None => None,
    }
}

impl View for Uri {
    type V = UriView;

    open spec fn view(&self) -> UriView {
        UriView {
            service: self.service@,
            api_type: self.api_type,
            api_group: self.api_group@,
            api_version: self.api_version@,
            ns: opt_view(self.ns),
            resource_type: self.resource_type@,
            resource_name: opt_view(self.resource_name),
            op: opt_view(self.op),
        }
    }
}

/// The empty path: every part blank, addressing the plain interface family.
pub open spec fn uri_default() -> UriView {
    UriView {
        service: Seq::empty(),
        api_type: ApiType::API,
        api_group: Seq::empty(),
        api_version: Seq::empty(),
        ns: None,
        resource_type: Seq::empty(),
        resource_name: None,
        op: None,
    }
}

/// The path split at every `/`, as `str::split` does it: empty segments are
/// kept, and an empty path has one empty segment.
pub open spec fn split_slash(s: Seq<char>, i: nat) -> Seq<Seq<char>>
    decreases s.len() - i,
{
    if find_char(s, i, '/') < s.len() && i <= find_char(s, i, '/') {
        seq![s.subrange(i as int, find_char(s, i, '/') as int)] + split_slash(
            s,
            find_char(s, i, '/') + 1,
        )
    } else {
        seq![s.subrange(i as int, s.len() as int)]
    }
}

/// What segment number `idx` contributes to the path: the fixed positions
/// carry the service, family, group and version; `namespaces` announces a
/// namespace; the resource type, name and operation fill the first open
/// slot among the later positions.
pub open spec fn uri_step(acc: UriView, idx: int, item: Seq<char>) -> UriView {
    if idx == 1 {
        UriView { service: item, ..acc }
    } else if idx == 2 {
        UriView {
            api_type: if item == seq!['a', 'p', 'i'] {
                ApiType::API
            } else {
                ApiType::APIS
            },
            ..acc
        }
    } else if idx == 3 {
        UriView { api_group: item, ..acc }
    } else if idx == 4 {
        UriView { api_version: item, ..acc }
    } else if idx == 5 {
        if item != seq!['n', 'a', 'm', 'e', 's', 'p', 'a', 'c', 'e', 's'] {
            UriView { resource_type: item, ..acc }
        } else {
            acc
        }
    } else if idx == 6 {
        if acc.resource_type.len() == 0 {
            UriView { ns: Some(item), ..acc }
        } else {
            UriView { resource_type: item, ..acc }
        }
    } else if idx == 7 {
        if acc.resource_type.len() == 0 {
            UriView { resource_type: item, ..acc }
        } else {
            UriView { resource_name: Some(item), ..acc }
        }
    } else if idx == 8 {
        if acc.resource_name is None {
            UriView { resource_name: Some(item), ..acc }
        } else {
            acc
        }
    } else if idx == 10 {
        UriView { op: Some(item), ..acc }
    } else {
        acc
    }
}

/// The path's meaning after its first `n` segments.
pub open spec fn uri_fold(parts: Seq<Seq<char>>, n: int) -> UriView
    decreases n,
{
    if n <= 0 {
        uri_default()
    } else {
        uri_step(uri_fold(parts, n - 1), n - 1, parts[n - 1])
    }
}

/// Parses a resource path; see [`uri_fold`] and [`uri_step`] for what each
/// segment contributes.
pub fn parse(url: &str) -> (r: Uri)
    ensures
        r@ == uri_fold(
            split_slash(url@, 0),
            split_slash(url@, 0).len() as int,
        ),
{
    let len = url.unicode_len();
    let ghost parts = split_slash(url@, 0);
    let mut u = Uri {
        service: String::new(),
        api_type: ApiType::API,
        api_group: String::new(),
        api_version: String::new(),
        ns: None,
        resource_type: String::new(),
        resource_name: None,
        op: None,
    };
    let mut pos: usize = 0;
    let mut idx: usize = 0;
    proof {
        crate::parse::lemma_find_char(url@, 0, '/');
        assert(split_slash(url@, 0).len() >= 1);
        reveal_strlit("api");
        reveal_strlit("namespaces");
        assert("api"@ =~= seq!['a', 'p', 'i']);
        assert("namespaces"@ =~= seq!['n', 'a', 'm', 'e', 's', 'p', 'a', 'c', 'e', 's']);
        assert(parts.skip(0) =~= parts);
    }
    loop
        invariant
            len == url@.len(),
            pos <= len,
            idx <= pos,
            u@ == uri_fold(parts, idx as int),
            split_slash(url@, pos as nat) == parts.skip(idx as int),
            idx < parts.len(),
        decreases len - pos,
    {
        let q = crate::parse::find_char_pub(url, len, pos, '/');
        let item = url.substring_char(pos, q);
        proof {
            crate::parse::lemma_find_char(url@, pos as nat, '/');
            crate::parse::lemma_find_char(url@, q as nat + 1, '/');
            assert(parts.skip(idx as int)[0] == split_slash(url@, pos as nat)[0]);
            if find_char(url@, pos as nat, '/') < url@.len() {
                assert(split_slash(url@, pos as nat)[0] == url@.subrange(pos as int, q as int));
            } else {
                assert(split_slash(url@, pos as nat)[0] == url@.subrange(pos as int, len as int));
            }
            assert(item@ == parts[idx as int]);
            assert(uri_fold(parts, idx as int + 1) == uri_step(
                uri_fold(parts, idx as int),
                idx as int,
                parts[idx as int],
            ));
        }
        if idx == 1 {
            u.service = item.to_owned();
        } else if idx == 2 {
            u.api_type = if str_eq(item, "api") {
                ApiType::API
            } else {
                ApiType::APIS
            };
        } else if idx == 3 {
            u.api_group = item.to_owned();
        } else if idx == 4 {
            u.api_version = item.to_owned();
        } else if idx == 5 {
            if !str_eq(item, "namespaces") {
                u.resource_type = item.to_owned();
            }
        } else if idx == 6 {
            if u.resource_type.as_str().unicode_len() == 0 {
                u.ns = Some(item.to_owned());
            } else {
                u.resource_type = item.to_owned();
            }
        } else if idx == 7 {
            if u.resource_type.as_str().unicode_len() == 0 {
                u.resource_type = item.to_owned();
            } else {
                u.resource_name = Some(item.to_owned());
            }
        } else if idx == 8 {
            let absent = match &u.resource_name {
                None => true,
                Some(_) => false,
            };
            if absent {
                u.resource_name = Some(item.to_owned());
            }
        } else if idx == 10 {
            u.op = Some(item.to_owned());
        }
        if q >= len {
            proof {
                assert(split_slash(url@, pos as nat).len() == 1);
                assert(parts.skip(idx as int).len() == 1);
                assert(idx as int + 1 == parts.len());
            }
            return u;
        }
        proof {
            assert(split_slash(url@, pos as nat) == seq![parts[idx as int]] + split_slash(
                url@,
                q as nat + 1,
            ));
            assert((seq![parts[idx as int]] + split_slash(url@, q as nat + 1)).skip(1)
                =~= split_slash(url@, q as nat + 1));
            assert(parts.skip(idx as int).skip(1) =~= parts.skip(idx as int + 1));
            assert(split_slash(url@, q as nat + 1) =~= parts.skip(idx as int + 1));
        }
        pos = q + 1;
        idx = idx + 1;
    }
}

impl Uri {
    /// The empty path; see [`uri_default`].
    pub fn new_default() -> (r: Uri)
        ensures
            r@ == uri_default(),
    {
        Uri {
            service: String::new(),
            api_type: ApiType::API,
            api_group: String::new(),
            api_version: String::new(),
            ns: None,
            resource_type: String::new(),
            resource_name: None,
            op: None,
        }
    }
}

/// Equality of two optional strings, by their characters.
fn opt_str_eq(a: &Option<String>, b: &Option<String>) -> (r: bool)
    ensures
        r == (opt_view(*a) == opt_view(*b)),
{
    match (a, b) {
        (None, None) => true,
        (Some(x), Some(y)) => str_eq(x.as_str(), y.as_str()),
        _ => false,
    }
}

impl PartialEq for Uri {
    /// Whether the two paths carry the same parts.
    fn eq(&self, other: &Self) -> (r: bool) {
        str_eq(self.service.as_str(), other.service.as_str()) && self.api_type == other.api_type
            && str_eq(self.api_group.as_str(), other.api_group.as_str()) && str_eq(
            self.api_version.as_str(),
            other.api_version.as_str(),
        ) && opt_str_eq(&self.ns, &other.ns) && str_eq(
            self.resource_type.as_str(),
            other.resource_type.as_str(),
        ) && opt_str_eq(&self.resource_name, &other.resource_name) && opt_str_eq(
            &self.op,
            &other.op,
        )
    }
}

impl vstd::std_specs::cmp::PartialEqSpecImpl for Uri {
    open spec fn obeys_eq_spec() -> bool {
        true
    }

    open spec fn eq_spec(&self, other: &Uri) -> bool {
        self@ == other@
    }
}

} // verus!
