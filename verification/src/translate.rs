//! Turning the headers of an inbound request into those sent upstream.
//!
//! Values that arrived under the same name are joined into one value, in the
//! order of their arrival, with `"; "` between them; no value is left out.
//! The inbound `Host` is dropped and replaced by the host the client asked
//! for, and the forwarding headers are added at the end.

use crate::header::{header_views, Header, HeaderView};
use crate::text::{is_text, is_text_value, join, lower, same_name, same_name_text, to_lower};
use vstd::prelude::*;
use vstd::string::StrSliceExecFns;
use vstd::string::StringExecFns;

verus! {

/// The values of the headers named `name`, in order of arrival.
pub open spec fn values_named(headers: Seq<HeaderView>, name: Seq<char>) -> Seq<Seq<char>>
    decreases headers.len(),
{
    if headers.len() == 0 {
        Seq::empty()
    } else {
        let rest = values_named(headers.drop_last(), name);
        if same_name(headers.last().name, name) {
            rest.push(headers.last().value)
        } else {
            rest
        }
    }
}

/// The single value that stands for all headers named `name`.
pub open spec fn joined_value(headers: Seq<HeaderView>, name: Seq<char>) -> Seq<char> {
    join(values_named(headers, name), "; "@)
}

/// The value of the first header named `name`.
pub open spec fn first_value(headers: Seq<HeaderView>, name: Seq<char>) -> Option<Seq<char>> {
    let values = values_named(headers, name);
    if values.len() > 0 {
        Some(values[0])
    } else {
        None
    }
}

/// Whether no header before position `i` has the name of the header at `i`.
pub open spec fn name_is_new(headers: Seq<HeaderView>, i: int) -> bool {
    forall|j: int| 0 <= j < i ==> !same_name((#[trigger] headers[j]).name, headers[i].name)
}

/// Whether `name` is the `Host` header's name.
pub open spec fn is_host(name: Seq<char>) -> bool {
    same_name(name, "host"@)
}

/// Whether the header at `i` opens a group that is carried upstream: it is
/// the first of its name, and its name is not `Host`.
pub open spec fn carried(headers: Seq<HeaderView>, i: int) -> bool {
    0 <= i < headers.len() && name_is_new(headers, i) && !is_host(headers[i].name)
}

/// The header that stands for the group of the header at `i`: the name in
/// lower case, and the joined value.
pub open spec fn merged_header(headers: Seq<HeaderView>, i: int) -> HeaderView {
    HeaderView {
        name: lower(headers[i].name),
        value: joined_value(headers, headers[i].name),
    }
}

/// The merged headers of the groups that open before position `n`.
pub open spec fn carried_upto(headers: Seq<HeaderView>, n: int) -> Seq<HeaderView>
    decreases n,
{
    if n <= 0 {
        Seq::empty()
    } else {
        let rest = carried_upto(headers, n - 1);
        if carried(headers, n - 1) {
            rest.push(merged_header(headers, n - 1))
        } else {
            rest
        }
    }
}

/// The merged headers of all groups, in the order in which the groups open.
pub open spec fn carried_headers(headers: Seq<HeaderView>) -> Seq<HeaderView> {
    carried_upto(headers, headers.len() as int)
}

/// The value of `X-Forwarded-For`: the first inbound value with the client
/// address appended after a space; the inbound value alone when it is empty;
/// the client address alone when there is no inbound value.
pub open spec fn forwarded_for(headers: Seq<HeaderView>, client_ip: Seq<char>) -> Seq<char> {
    match first_value(headers, "x-forwarded-for"@) {
        Some(v) => if v.len() > 0 {
            v + " "@ + client_ip
        } else {
            v
        },
        None => client_ip,
    }
}

/// The headers that the proxy sets itself, in the order in which it sets them.
pub open spec fn proxy_headers(
    headers: Seq<HeaderView>,
    client_ip: Seq<char>,
    scheme: Seq<char>,
    original_host: Seq<char>,
) -> Seq<HeaderView> {
    seq![
        HeaderView { name: "Host"@, value: original_host },
        HeaderView { name: "X-Real-IP"@, value: client_ip },
        HeaderView { name: "X-Forwarded-For"@, value: forwarded_for(headers, client_ip) },
        HeaderView { name: "X-Forwarded-Proto"@, value: scheme },
        HeaderView { name: "X-Forwarded-Host"@, value: original_host },
    ]
}

/// The full set of headers sent upstream.
pub open spec fn outbound_headers(
    headers: Seq<HeaderView>,
    client_ip: Seq<char>,
    scheme: Seq<char>,
    original_host: Seq<char>,
) -> Seq<HeaderView> {
    carried_headers(headers) + proxy_headers(headers, client_ip, scheme, original_host)
}

/// Taking one more header into account adds its value when it has the name.
proof fn lemma_values_step(headers: Seq<HeaderView>, name: Seq<char>, j: int)
    requires
        0 <= j < headers.len(),
    ensures
        values_named(headers.take(j + 1), name) == if same_name(headers[j].name, name) {
            values_named(headers.take(j), name).push(headers[j].value)
        } else {
            values_named(headers.take(j), name)
        },
{
    assert(headers.take(j + 1).drop_last() =~= headers.take(j));
}

/// Joining one more part puts the separator before it, unless it is the first.
proof fn lemma_join_push(parts: Seq<Seq<char>>, v: Seq<char>, sep: Seq<char>)
    ensures
        join(parts.push(v), sep) == if parts.len() == 0 {
            v
        } else {
            join(parts, sep) + sep + v
        },
{
    assert(parts.push(v).drop_last() =~= parts);
}

/// The values of the headers named `name`, in order of arrival.
pub fn values_of<'a>(headers: &'a Vec<Header>, name: &str) -> (r: Vec<&'a String>)
    ensures
        r@.map_values(|s: &String| s@) == values_named(header_views(headers@), name@),
{
    let ghost views = header_views(headers@);
    let mut r: Vec<&'a String> = Vec::new();
    let mut j: usize = 0;
    while j < headers.len()
        invariant
            j <= headers.len(),
            views == header_views(headers@),
            r@.map_values(|s: &String| s@) == values_named(views.take(j as int), name@),
        decreases headers.len() - j,
    {
        proof {
            lemma_values_step(views, name@, j as int);
        }
        let ghost before = r@;
        if same_name_text(headers[j].name.as_str(), name) {
            r.push(&headers[j].value);
            assert(r@.map_values(|s: &String| s@) =~= before.map_values(|s: &String| s@).push(
                headers@[j as int].value@,
            ));
        }
        j += 1;
    }
    assert(views.take(headers.len() as int) =~= views);
    r
}

/// The single value that stands for all headers named `name`.
pub fn joined(headers: &Vec<Header>, name: &str) -> (r: String)
    ensures
        r@ == joined_value(header_views(headers@), name@),
{
    let values = values_of(headers, name);
    let ghost all = values@.map_values(|s: &String| s@);
    let mut r = String::new();
    let mut k: usize = 0;
    proof {
        reveal_strlit("; ");
        assert(all.take(0) =~= Seq::<Seq<char>>::empty());
    }
    while k < values.len()
        invariant
            k <= values.len(),
            all == values@.map_values(|s: &String| s@),
            r@ == join(all.take(k as int), "; "@),
        decreases values.len() - k,
    {
        proof {
            assert(all.take(k + 1) =~= all.take(k as int).push(all[k as int]));
            lemma_join_push(all.take(k as int), all[k as int], "; "@);
        }
        if k > 0 {
            r.append("; ");
        }
        r.append(values[k].as_str());
        k += 1;
    }
    assert(all.take(values.len() as int) =~= all);
    r
}

/// Whether no header before position `i` has the name of the header at `i`.
pub fn opens_group(headers: &Vec<Header>, i: usize) -> (r: bool)
    requires
        i < headers.len(),
    ensures
        r == name_is_new(header_views(headers@), i as int),
{
    let ghost views = header_views(headers@);
    let mut j: usize = 0;
    while j < i
        invariant
            j <= i,
            i < headers.len(),
            views == header_views(headers@),
            forall|k: int| 0 <= k < j ==> !same_name((#[trigger] views[k]).name, views[i as int].name),
        decreases i - j,
    {
        if same_name_text(headers[j].name.as_str(), headers[i].name.as_str()) {
            assert(same_name(views[j as int].name, views[i as int].name));
            return false;
        }
        j += 1;
    }
    true
}

/// The value of `X-Forwarded-For` for a request that came from `client_ip`.
pub fn forwarded_for_value(headers: &Vec<Header>, client_ip: &str) -> (r: String)
    ensures
        r@ == forwarded_for(header_views(headers@), client_ip@),
{
    let values = values_of(headers, "x-forwarded-for");
    let ghost all = values@.map_values(|s: &String| s@);
    if values.len() > 0 {
        assert(all[0] == values@[0]@);
        let first = values[0];
        let mut r = first.clone();
        if first.as_str().unicode_len() > 0 {
            r.append(" ");
            r.append(client_ip);
        }
        return r;
    }
    String::from_str(client_ip)
}

/// The headers sent upstream for a request with the given inbound headers.
///
/// `client_ip` is the client's address as far as it is known, or the empty
/// string. `scheme` is the scheme the request arrived over. `original_host`
/// is the host the client asked for.
pub fn translate_headers(
    headers: &Vec<Header>,
    client_ip: &str,
    scheme: &str,
    original_host: &str,
) -> (r: Vec<Header>)
    ensures
        header_views(r@) == outbound_headers(
            header_views(headers@),
            client_ip@,
            scheme@,
            original_host@,
        ),
{
    let ghost views = header_views(headers@);
    let mut r: Vec<Header> = Vec::new();
    let mut i: usize = 0;
    assert(header_views(r@) =~= carried_upto(views, 0));
    while i < headers.len()
        invariant
            i <= headers.len(),
            views == header_views(headers@),
            header_views(r@) == carried_upto(views, i as int),
        decreases headers.len() - i,
    {
        let ghost before = r@;
        let name = headers[i].name.as_str();
        if opens_group(headers, i) && !same_name_text(name, "host") {
            r.push(Header::new(to_lower(name), joined(headers, name)));
            assert(header_views(r@) =~= header_views(before).push(merged_header(views, i as int)));
        }
        i += 1;
    }
    let ghost carried_part = r@;
    let xff = forwarded_for_value(headers, client_ip);
    r.push(Header::new(String::from_str("Host"), String::from_str(original_host)));
    r.push(Header::new(String::from_str("X-Real-IP"), String::from_str(client_ip)));
    r.push(Header::new(String::from_str("X-Forwarded-For"), xff));
    r.push(Header::new(String::from_str("X-Forwarded-Proto"), String::from_str(scheme)));
    r.push(Header::new(String::from_str("X-Forwarded-Host"), String::from_str(original_host)));
    assert(header_views(r@) =~= header_views(carried_part) + proxy_headers(
        views,
        client_ip@,
        scheme@,
        original_host@,
    ));
    r
}

/// The host a request is for: the value of its first `Host` header when that
/// is text, and nothing when it is not; without a `Host` header, the host of
/// the request target.
pub open spec fn requested_host(headers: Seq<HeaderView>, target_host: Option<Seq<char>>) -> Option<
    Seq<char>,
> {
    match first_value(headers, "host"@) {
        Some(v) => if is_text(v) {
            Some(v)
        } else {
            None
        },
        None => target_host,
    }
}

/// The host a request is for, see [`requested_host`].
pub fn get_request_host<'a>(headers: &'a Vec<Header>, target_host: Option<&'a str>) -> (r: Option<
    &'a str,
>)
    ensures
        match r {
            Some(h) => requested_host(
                header_views(headers@),
                match target_host {
                    Some(t) => Some(t@),
                    None => None,
                },
            ) == Some(h@),
            None => requested_host(
                header_views(headers@),
                match target_host {
                    Some(t) => Some(t@),
                    None => None,
                },
            ) is None,
        },
{
    let values = values_of(headers, "host");
    let ghost all = values@.map_values(|s: &String| s@);
    if values.len() > 0 {
        assert(all[0] == values@[0]@);
        let first: &'a String = values[0];
        if is_text_value(first.as_str()) {
            Some(first.as_str())
        } else {
            None
        }
    } else {
        target_host
    }
}

/// Whether some header of the list is named `name`.
pub open spec fn occurs(headers: Seq<HeaderView>, name: Seq<char>) -> bool {
    exists|i: int| 0 <= i < headers.len() && same_name((#[trigger] headers[i]).name, name)
}

/// Two spellings of one name select the same values.
pub proof fn lemma_values_by_any_spelling(headers: Seq<HeaderView>, a: Seq<char>, b: Seq<char>)
    requires
        same_name(a, b),
    ensures
        values_named(headers, a) == values_named(headers, b),
    decreases headers.len(),
{
    if headers.len() > 0 {
        lemma_values_by_any_spelling(headers.drop_last(), a, b);
    }
}

/// A name has values exactly when a header of that name occurs.
pub proof fn lemma_values_iff_occurs(headers: Seq<HeaderView>, name: Seq<char>)
    ensures
        values_named(headers, name).len() > 0 <==> occurs(headers, name),
    decreases headers.len(),
{
    if headers.len() > 0 {
        let rest = headers.drop_last();
        lemma_values_iff_occurs(rest, name);
        if occurs(headers, name) {
            let i = choose|i: int|
                0 <= i < headers.len() && same_name((#[trigger] headers[i]).name, name);
            if i < rest.len() {
                assert(same_name(rest[i].name, name));
            }
        }
        if occurs(rest, name) {
            let i = choose|i: int| 0 <= i < rest.len() && same_name((#[trigger] rest[i]).name, name);
            assert(same_name(headers[i].name, name));
        }
        if same_name(headers.last().name, name) {
            assert(same_name(headers[headers.len() - 1].name, name));
        }
    }
}

/// At or before any header of a name stands the first header of that name.
proof fn lemma_group_opening(headers: Seq<HeaderView>, i: int) -> (f: int)
    requires
        0 <= i < headers.len(),
    ensures
        0 <= f <= i,
        same_name(headers[f].name, headers[i].name),
        name_is_new(headers, f),
    decreases i,
{
    if name_is_new(headers, i) {
        i
    } else {
        let j = choose|j: int|
            0 <= j < i && same_name((#[trigger] headers[j]).name, headers[i].name);
        lemma_group_opening(headers, j)
    }
}

/// What the merged headers hold: one header for each group that is carried.
proof fn lemma_carried_contains(headers: Seq<HeaderView>, n: int, e: HeaderView)
    requires
        0 <= n <= headers.len(),
    ensures
        carried_upto(headers, n).contains(e) <==> exists|i: int|
            0 <= i < n && #[trigger] carried(headers, i) && merged_header(headers, i) == e,
    decreases n,
{
    if n > 0 {
        lemma_carried_contains(headers, n - 1, e);
        let rest = carried_upto(headers, n - 1);
        if carried(headers, n - 1) {
            let all = rest.push(merged_header(headers, n - 1));
            assert(all.last() == merged_header(headers, n - 1));
            if rest.contains(e) {
                let k = choose|k: int| 0 <= k < rest.len() && rest[k] == e;
                assert(all[k] == e);
            }
            if all.contains(e) {
                let k = choose|k: int| 0 <= k < all.len() && all[k] == e;
                if k < rest.len() {
                    assert(rest[k] == e);
                }
            }
        }
    }
}

/// Every group that one list carries, the other carries too, when both hold
/// the same values under every name.
proof fn lemma_carried_subset(h1: Seq<HeaderView>, h2: Seq<HeaderView>, e: HeaderView)
    requires
        forall|name: Seq<char>| #[trigger] values_named(h1, name) == values_named(h2, name),
        carried_headers(h1).contains(e),
    ensures
        carried_headers(h2).contains(e),
{
    lemma_carried_contains(h1, h1.len() as int, e);
    lemma_carried_contains(h2, h2.len() as int, e);
    let i = choose|i: int|
        0 <= i < h1.len() && #[trigger] carried(h1, i) && merged_header(h1, i) == e;
    let name = h1[i].name;
    assert(same_name(h1[i].name, name));
    lemma_values_iff_occurs(h1, name);
    lemma_values_iff_occurs(h2, name);
    assert(values_named(h1, name) == values_named(h2, name));
    let k = choose|k: int| 0 <= k < h2.len() && same_name((#[trigger] h2[k]).name, name);
    let f = lemma_group_opening(h2, k);
    lemma_values_by_any_spelling(h2, h2[f].name, name);
    assert(carried(h2, f));
    assert(merged_header(h2, f) == e);
}

/// The order in which headers of different names arrive does not matter.
///
/// Two header lists that hold, under every name, the same values in the same
/// order are translated to the same set of outbound headers, and every name
/// gets the same joined value from both. Within one name the order of the
/// values is kept: the joined value is the values in their order of arrival.
pub proof fn lemma_translation_ignores_interleaving(
    h1: Seq<HeaderView>,
    h2: Seq<HeaderView>,
    client_ip: Seq<char>,
    scheme: Seq<char>,
    original_host: Seq<char>,
)
    requires
        forall|name: Seq<char>| #[trigger] values_named(h1, name) == values_named(h2, name),
    ensures
        outbound_headers(h1, client_ip, scheme, original_host).to_set() == outbound_headers(
            h2,
            client_ip,
            scheme,
            original_host,
        ).to_set(),
        forall|name: Seq<char>| #[trigger] joined_value(h1, name) == joined_value(h2, name),
{
    let fixed1 = proxy_headers(h1, client_ip, scheme, original_host);
    let fixed2 = proxy_headers(h2, client_ip, scheme, original_host);
    assert(values_named(h1, "x-forwarded-for"@) == values_named(h2, "x-forwarded-for"@));
    assert(fixed1 == fixed2);
    assert forall|e: HeaderView|
        carried_headers(h1).contains(e) <==> carried_headers(h2).contains(e) by {
        if carried_headers(h1).contains(e) {
            lemma_carried_subset(h1, h2, e);
        }
        if carried_headers(h2).contains(e) {
            lemma_carried_subset(h2, h1, e);
        }
    }
    vstd::seq_lib::seq_to_set_distributes_over_add(carried_headers(h1), fixed1);
    vstd::seq_lib::seq_to_set_distributes_over_add(carried_headers(h2), fixed2);
    assert(carried_headers(h1).to_set() =~= carried_headers(h2).to_set());
    assert forall|name: Seq<char>| #[trigger]
        joined_value(h1, name) == joined_value(h2, name) by {
        assert(values_named(h1, name) == values_named(h2, name));
    }
}

/// No two of the merged headers have the same name.
proof fn lemma_carried_names_differ(headers: Seq<HeaderView>, n: int, m: int, k: int)
    requires
        0 <= n <= headers.len(),
        0 <= m < k < carried_upto(headers, n).len(),
    ensures
        !same_name(carried_upto(headers, n)[m].name, carried_upto(headers, n)[k].name),
    decreases n,
{
    let rest = carried_upto(headers, n - 1);
    if k < rest.len() {
        lemma_carried_names_differ(headers, n - 1, m, k);
    } else {
        assert(rest.contains(rest[m]));
        lemma_carried_contains(headers, n - 1, rest[m]);
        let i = choose|i: int|
            0 <= i < n - 1 && #[trigger] carried(headers, i) && merged_header(headers, i)
                == rest[m];
        assert(lower(lower(headers[i].name)) =~= lower(headers[i].name));
        assert(lower(lower(headers[n - 1].name)) =~= lower(headers[n - 1].name));
        assert(!same_name(headers[i].name, headers[n - 1].name));
    }
}

/// Whether `name` is one of the names that the proxy sets itself.
pub open spec fn proxy_sets(name: Seq<char>) -> bool {
    ||| same_name(name, "Host"@)
    ||| same_name(name, "X-Real-IP"@)
    ||| same_name(name, "X-Forwarded-For"@)
    ||| same_name(name, "X-Forwarded-Proto"@)
    ||| same_name(name, "X-Forwarded-Host"@)
}

/// Every name that arrives, other than `Host`, is carried upstream once, with
/// all its values joined in the order of their arrival.
///
/// Among the merged headers exactly one has the name; it holds the name in
/// lower case and the joined value. Where the proxy does not set the name
/// itself, that header is also the only one of the name in the whole outbound
/// set.
pub proof fn lemma_each_name_carried_once(
    headers: Seq<HeaderView>,
    client_ip: Seq<char>,
    scheme: Seq<char>,
    original_host: Seq<char>,
    name: Seq<char>,
) -> (k: int)
    requires
        occurs(headers, name),
        !is_host(name),
    ensures
        0 <= k < carried_headers(headers).len(),
        carried_headers(headers)[k] == (HeaderView {
            name: lower(name),
            value: join(values_named(headers, name), "; "@),
        }),
        forall|m: int|
            0 <= m < carried_headers(headers).len() && same_name(
                (#[trigger] carried_headers(headers)[m]).name,
                name,
            ) ==> m == k,
        outbound_headers(headers, client_ip, scheme, original_host)[k] == carried_headers(
            headers,
        )[k],
        !proxy_sets(name) ==> forall|m: int|
            0 <= m < outbound_headers(headers, client_ip, scheme, original_host).len()
                && same_name(
                (#[trigger] outbound_headers(headers, client_ip, scheme, original_host)[m]).name,
                name,
            ) ==> m == k,
{
    let merged = carried_headers(headers);
    let fixed = proxy_headers(headers, client_ip, scheme, original_host);
    let all = outbound_headers(headers, client_ip, scheme, original_host);
    let i = choose|i: int| 0 <= i < headers.len() && same_name((#[trigger] headers[i]).name, name);
    let f = lemma_group_opening(headers, i);
    lemma_values_by_any_spelling(headers, headers[f].name, name);
    assert(carried(headers, f));
    let e = merged_header(headers, f);
    lemma_carried_contains(headers, headers.len() as int, e);
    assert(merged.contains(e));
    let k = choose|k: int| 0 <= k < merged.len() && merged[k] == e;
    assert(lower(lower(name)) =~= lower(name));
    assert forall|m: int| 0 <= m < merged.len() && same_name((#[trigger] merged[m]).name, name)
        implies m == k by {
        if m < k {
            lemma_carried_names_differ(headers, headers.len() as int, m, k);
        }
        if k < m {
            lemma_carried_names_differ(headers, headers.len() as int, k, m);
        }
    }
    if !proxy_sets(name) {
        assert forall|m: int| 0 <= m < all.len() && same_name((#[trigger] all[m]).name, name)
            implies m == k by {
            if m >= merged.len() {
                assert(all[m] == fixed[m - merged.len()]);
            } else {
                assert(all[m] == merged[m]);
            }
        }
    }
    k
}

/// Exactly one `Host` header goes upstream, and it names the host the client
/// asked for.
pub proof fn lemma_one_host_header(
    headers: Seq<HeaderView>,
    client_ip: Seq<char>,
    scheme: Seq<char>,
    original_host: Seq<char>,
    k: int,
)
    requires
        0 <= k < outbound_headers(headers, client_ip, scheme, original_host).len(),
    ensures
        is_host(outbound_headers(headers, client_ip, scheme, original_host)[k].name) <==> k
            == carried_headers(headers).len(),
        outbound_headers(headers, client_ip, scheme, original_host)[carried_headers(
            headers,
        ).len() as int].value == original_host,
{
    let merged = carried_headers(headers);
    let fixed = proxy_headers(headers, client_ip, scheme, original_host);
    reveal_strlit("Host");
    reveal_strlit("host");
    reveal_strlit("X-Real-IP");
    reveal_strlit("X-Forwarded-For");
    reveal_strlit("X-Forwarded-Proto");
    reveal_strlit("X-Forwarded-Host");
    assert(lower("Host"@) =~= lower("host"@));
    assert(lower("X-Real-IP"@).len() != lower("host"@).len());
    assert(lower("X-Forwarded-For"@).len() != lower("host"@).len());
    assert(lower("X-Forwarded-Proto"@).len() != lower("host"@).len());
    assert(lower("X-Forwarded-Host"@).len() != lower("host"@).len());
    if k < merged.len() {
        assert(merged.contains(merged[k]));
        lemma_carried_contains(headers, headers.len() as int, merged[k]);
        let i = choose|i: int|
            0 <= i < headers.len() && #[trigger] carried(headers, i) && merged_header(headers, i)
                == merged[k];
        assert(lower(lower(headers[i].name)) =~= lower(headers[i].name));
    }
}

} // verus!
