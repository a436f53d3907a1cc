//! How the client is set up.
use crate::model::same_option;
use crate::model::text_option;
use crate::search::lemma_first_where;
use crate::text::equals;
use crate::text::law_split_undoes_joining;
use crate::text::split_at_first;
use crate::text::split_once;
use vstd::prelude::*;

verus! {

/// Where the server is, and how to log in to it.
#[derive(Debug)]
pub struct Config {
    pub url: String,
    pub username: Option<String>,
    pub password: Option<String>,
    pub mfa_token: Option<String>,
    /// Headers to send when connecting, each as `name=value`.
    pub headers: Vec<String>,
}

/// What a `Config` holds.
pub struct ConfigView {
    pub url: Seq<char>,
    pub username: Option<Seq<char>>,
    pub password: Option<Seq<char>>,
    pub mfa_token: Option<Seq<char>>,
    pub headers: Seq<Seq<char>>,
}

impl View for Config {
    type V = ConfigView;

    open spec fn view(&self) -> ConfigView {
        ConfigView {
            url: self.url@,
            username: text_option(self.username),
            password: text_option(self.password),
            mfa_token: text_option(self.mfa_token),
            headers: self.headers@.map_values(|header: String| header@),
        }
    }
}

/// The names and values of the headers that have both, in order.
pub open spec fn header_pairs(headers: Seq<Seq<char>>) -> Seq<(Seq<char>, Seq<char>)>
    decreases headers.len(),
{
    if headers.len() == 0 {
        Seq::empty()
    } else {
        match split_at_first(headers.last(), '=') {
            Some(pair) => header_pairs(headers.drop_last()).push(pair),
            None => header_pairs(headers.drop_last()),
        }
    }
}

/// The texts of some pairs.
pub open spec fn pair_views(pairs: Seq<(String, String)>) -> Seq<(Seq<char>, Seq<char>)> {
    pairs.map_values(|pair: (String, String)| (pair.0@, pair.1@))
}

impl Config {
    /// The headers to send when connecting, split at the first `=`; one without it is left out.
    pub fn opening_headers(&self) -> (r: Vec<(String, String)>)
        ensures
            pair_views(r@) == header_pairs(self@.headers),
    {
        let ghost views = self@.headers;
        let mut pairs: Vec<(String, String)> = Vec::new();
        let mut i: usize = 0;
        assert(pair_views(pairs@) =~= header_pairs(views.take(0)));
        while i < self.headers.len()
            invariant
                i <= self.headers.len(),
                views == self@.headers,
                pair_views(pairs@) == header_pairs(views.take(i as int)),
            decreases self.headers.len() - i,
        {
            let ghost before = pair_views(pairs@);
            assert(views.take(i + 1).drop_last() =~= views.take(i as int));
            assert(views.take(i + 1).last() == self.headers@[i as int]@);
            match split_once(self.headers[i].as_str(), '=') {
                Some(pair) => {
                    pairs.push(pair);
                    assert(pair_views(pairs@) =~= before.push((pair.0@, pair.1@)));
                },
                None => {},
            }
            i = i + 1;
        }
        assert(views.take(views.len() as int) =~= views);
        pairs
    }
}

/// The name and the value of a header make up the header again, and the name holds no `=`; a header
/// without `=` is left out.
pub proof fn law_header_parts(header: Seq<char>)
    ensures
        match split_at_first(header, '=') {
            Some((name, value)) => header == name + seq!['='] + value && !name.contains('='),
            None => !header.contains('='),
        },
{
    lemma_first_where(header, equals('='));
    match split_at_first(header, '=') {
        Some((name, value)) => {
            assert(header =~= name + seq!['='] + value);
            assert forall|k: int| 0 <= k < name.len() implies name[k] != '=' by {
                assert(!equals('=')(header[k]));
            }
        },
        None => {
            assert forall|k: int| 0 <= k < header.len() implies header[k] != '=' by {
                assert(!equals('=')(header[k]));
            }
        },
    }
}

/// Each header that is put together of a name, `=` and a value is sent as that name and that value,
/// behind those before it; one without `=` is not sent, and without headers nothing is.
pub proof fn law_headers_in_order(
    headers: Seq<Seq<char>>,
    name: Seq<char>,
    value: Seq<char>,
)
    requires
        !name.contains('='),
    ensures
        header_pairs(headers.push(name + seq!['='] + value)) == header_pairs(headers).push(
            (name, value),
        ),
        header_pairs(headers.push(name)) == header_pairs(headers),
        header_pairs(Seq::empty()).len() == 0,
{
    law_split_undoes_joining(name, '=', value);
    assert(headers.push(name + seq!['='] + value).drop_last() =~= headers);
    assert(headers.push(name).drop_last() =~= headers);
}

/// Two setups that count as the same have the same url, credentials and headers.
pub proof fn law_config_view_is_faithful(a: Config, b: Config)
    requires
        a@ == b@,
    ensures
        a.url@ == b.url@,
        same_option(a.username, b.username),
        same_option(a.password, b.password),
        same_option(a.mfa_token, b.mfa_token),
        a.headers@.len() == b.headers@.len(),
        forall|i: int| 0 <= i < a.headers@.len() ==> (#[trigger] a.headers@[i])@ == b.headers@[i]@,
{
    assert(a@.headers.len() == a.headers@.len());
    assert(b@.headers.len() == b.headers@.len());
    assert forall|i: int| 0 <= i < a.headers@.len() implies (#[trigger] a.headers@[i])@
        == b.headers@[i]@ by {
        assert(a@.headers[i] == b@.headers[i]);
    }
}

} // verus!
