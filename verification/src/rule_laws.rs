//! What holds of the rules of the scanner: of one on all its inputs, and of
//! several together.
use vstd::prelude::*;

use crate::brute;
use crate::candidate;
use crate::candidate::CandidateResponseView;
use crate::content;
use crate::extension;
use crate::json;
use crate::json::JsonView;
use crate::manifest;
use crate::manifest::ManifestReferenceView;
use crate::number;
use crate::options;
use crate::options::FilePresetView;
use crate::results;
use crate::results::ScanCounters;
use crate::soft404;
use crate::soft404::ProbeResponseView;
use crate::subdomain;
use crate::text;
use crate::text::CharClass;
use crate::urls;
use crate::urls::UrlView;

verus! {

/// To be on one origin is the same both ways, holds of every URL and itself,
/// and carries over from URL to URL.
pub proof fn law_origin_is_an_equivalence(a: UrlView, b: UrlView, c: UrlView)
    ensures
        urls::on_same_origin(a, a),
        urls::on_same_origin(a, b) == urls::on_same_origin(b, a),
        urls::on_same_origin(a, b) && urls::on_same_origin(b, c) ==> urls::on_same_origin(a, c),
{
}

proof fn lemma_decimal_has_no(n: nat, c: char)
    requires
        !number::is_digit(c),
    ensures
        !number::decimal_text(n).contains(c),
{
    number::lemma_decimal_text(n);
    let digits = number::decimal_text(n);
    if digits.contains(c) {
        let i = choose|i: int| 0 <= i < digits.len() && digits[i] == c;
        assert(number::is_digit(digits[i]));
    }
}

/// What follows `c` in a text, where `c` does not come again.
proof fn lemma_split_at_last(head: Seq<char>, c: char, tail: Seq<char>)
    requires
        !tail.contains(c),
    ensures
        text::split_at_last(head.push(c) + tail, c) == Some((head, tail)),
        text::after_last(head.push(c) + tail, c) == tail,
{
    let whole = head.push(c) + tail;
    assert forall|j: int| head.len() < j < whole.len() implies whole[j] != c by {
        assert(whole[j] == tail[j - head.len() - 1]);
        assert(tail.contains(tail[j - head.len() - 1]));
    }
    text::lemma_last_position(whole, c, head.len() as int);
    assert(whole.take(head.len() as int) =~= head);
    assert(whole.skip(head.len() as int + 1) =~= tail);
}

/// The total of a content range is read back: whatever stands before the last
/// slash, the number that is written after it comes out, and a star gives none.
pub proof fn law_range_total_reads_back(range: Seq<char>, total: u64)
    ensures
        content::range_total(range.push('/') + number::decimal_text(total as nat)) == Some(
            total as nat,
        ),
        content::range_total(range.push('/') + "*"@) is None,
{
    lemma_decimal_has_no(total as nat, '/');
    lemma_split_at_last(range, '/', number::decimal_text(total as nat));
    number::law_decimal_reads_back(total as nat);
    reveal_strlit("*");
    assert(!"*"@.contains('/'));
    lemma_split_at_last(range, '/', "*"@);
    assert(!number::is_digit("*"@[0]));
}

/// What follows a semicolon in a content type, its parameters, does not change
/// its family.
pub proof fn law_family_ignores_parameters(media_type: Seq<char>, parameters: Seq<char>)
    ensures
        content::family_of(media_type.push(';') + parameters) == content::family_of(media_type),
{
    let whole = media_type.push(';') + parameters;
    media_type.index_of_first_ensures(';');
    match media_type.index_of_first(';') {
        Some(i) => {
            text::lemma_first_position(whole, ';', i);
            assert(whole.take(i) =~= media_type.take(i));
        },
        None => {
            assert forall|j: int| 0 <= j < media_type.len() implies whole[j] != ';' by {
                assert(media_type.contains(media_type[j]));
            }
            text::lemma_first_position(whole, ';', media_type.len() as int);
            assert(whole.take(media_type.len() as int) =~= media_type);
        },
    }
}

/// Lower-case letters stay as they are.
proof fn lemma_lowercased_twice(s: Seq<char>)
    ensures
        text::lowercased(text::lowercased(s)) == text::lowercased(s),
{
    let lower = text::lowercased(s);
    assert forall|i: int| 0 <= i < s.len() implies text::ascii_lower(#[trigger] lower[i])
        == lower[i] by {
        let c = s[i];
        assert(lower[i] == text::ascii_lower(c));
    }
    assert(text::lowercased(lower) =~= lower);
}

/// Whether the case of letters does not matter to a class.
spec fn ignores_case(class: CharClass) -> bool {
    forall|c: char| class.has_char(#[trigger] text::ascii_lower(c)) == class.has_char(c)
}

proof fn lemma_left_trimmed_lower(s: Seq<char>, class: CharClass)
    requires
        ignores_case(class),
    ensures
        text::left_trimmed(text::lowercased(s), class) == text::lowercased(
            text::left_trimmed(s, class),
        ),
    decreases s.len(),
{
    if s.len() > 0 {
        assert(text::lowercased(s).first() == text::ascii_lower(s.first()));
        assert(text::lowercased(s).drop_first() =~= text::lowercased(s.drop_first()));
        lemma_left_trimmed_lower(s.drop_first(), class);
    }
}

proof fn lemma_right_trimmed_lower(s: Seq<char>, class: CharClass)
    requires
        ignores_case(class),
    ensures
        text::right_trimmed(text::lowercased(s), class) == text::lowercased(
            text::right_trimmed(s, class),
        ),
    decreases s.len(),
{
    if s.len() > 0 {
        assert(text::lowercased(s).last() == text::ascii_lower(s.last()));
        assert(text::lowercased(s).drop_last() =~= text::lowercased(s.drop_last()));
        lemma_right_trimmed_lower(s.drop_last(), class);
    }
}

proof fn lemma_trimmed_lower(s: Seq<char>)
    ensures
        text::trimmed(text::lowercased(s)) == text::lowercased(text::trimmed(s)),
{
    lemma_left_trimmed_lower(s, CharClass::WhiteSpace);
    lemma_right_trimmed_lower(text::left_trimmed(s, CharClass::WhiteSpace), CharClass::WhiteSpace);
}

/// The case of a content type does not change its family.
pub proof fn law_family_ignores_case(content_type: Seq<char>)
    ensures
        content::family_of(text::lowercased(content_type)) == content::family_of(content_type),
{
    let lower = text::lowercased(content_type);
    content_type.index_of_first_ensures(';');
    lower.index_of_first_ensures(';');
    match content_type.index_of_first(';') {
        Some(i) => {
            text::lemma_first_position(lower, ';', i);
            assert(lower.take(i) =~= text::lowercased(content_type.take(i)));
        },
        None => {
            if lower.contains(';') {
                let i = choose|i: int| 0 <= i < lower.len() && lower[i] == ';';
                assert(content_type[i] == ';');
            }
        },
    }
    let given = text::before_first(content_type, ';');
    assert(text::before_first(lower, ';') == text::lowercased(given));
    lemma_trimmed_lower(given);
    lemma_lowercased_twice(text::trimmed(given));
}

/// The case of an extension does not change its normalised form.
pub proof fn law_extension_ignores_case(given: Seq<char>)
    ensures
        extension::normalized_extension(text::lowercased(given))
            == extension::normalized_extension(given),
{
    lemma_trimmed_lower(given);
    lemma_left_trimmed_lower(text::trimmed(given), CharClass::Only('.'));
    lemma_lowercased_twice(text::left_trimmed(text::trimmed(given), CharClass::Only('.')));
}

proof fn lemma_left_trimmed_fixed(s: Seq<char>, class: CharClass)
    ensures
        ({
            let rest = text::left_trimmed(s, class);
            rest.len() > 0 ==> !class.has_char(rest.first())
        }),
    decreases s.len(),
{
    if s.len() > 0 && class.has_char(s.first()) {
        lemma_left_trimmed_fixed(s.drop_first(), class);
    }
}

proof fn lemma_right_trimmed_fixed(s: Seq<char>, class: CharClass)
    ensures
        ({
            let rest = text::right_trimmed(s, class);
            &&& rest.len() > 0 ==> !class.has_char(rest.last())
            &&& rest.is_prefix_of(s)
        }),
    decreases s.len(),
{
    if s.len() > 0 && class.has_char(s.last()) {
        lemma_right_trimmed_fixed(s.drop_last(), class);
        let rest = text::right_trimmed(s.drop_last(), class);
        assert(s.drop_last().take(rest.len() as int) =~= s.take(rest.len() as int));
    } else {
        assert(s.take(s.len() as int) =~= s);
    }
}

/// White space stands at neither end of what is trimmed.
proof fn lemma_trimmed_ends(s: Seq<char>)
    ensures
        ({
            let rest = text::trimmed(s);
            &&& rest.len() > 0 ==> !text::is_white_space(rest.first())
            &&& rest.len() > 0 ==> !text::is_white_space(rest.last())
        }),
{
    let left = text::left_trimmed(s, CharClass::WhiteSpace);
    lemma_left_trimmed_fixed(s, CharClass::WhiteSpace);
    lemma_right_trimmed_fixed(left, CharClass::WhiteSpace);
    let rest = text::trimmed(s);
    if rest.len() > 0 {
        assert(rest.first() == left.first());
    }
}

/// What has no white space at its ends is not changed by trimming.
proof fn lemma_trimmed_stays(s: Seq<char>)
    requires
        s.len() > 0 ==> !text::is_white_space(s.first()),
        s.len() > 0 ==> !text::is_white_space(s.last()),
    ensures
        text::trimmed(s) == s,
{
}

/// An extension that is normalised already is not changed, unless white space
/// stands behind its leading dots.
pub proof fn law_normalized_extension_stays(given: Seq<char>)
    requires
        ({
            let bare = text::left_trimmed(text::trimmed(given), CharClass::Only('.'));
            bare.len() > 0 ==> !text::is_white_space(bare.first())
        }),
    ensures
        extension::normalized_extension(extension::normalized_extension(given))
            == extension::normalized_extension(given),
{
    let trimmed = text::trimmed(given);
    let bare = text::left_trimmed(trimmed, CharClass::Only('.'));
    let lower = extension::normalized_extension(given);
    lemma_trimmed_ends(given);
    lemma_left_trimmed_fixed(trimmed, CharClass::Only('.'));
    lemma_left_trimmed_last(trimmed, CharClass::Only('.'));
    lemma_trimmed_stays(lower);
    lemma_lowercased_twice(bare);
}

proof fn lemma_left_trimmed_last(s: Seq<char>, class: CharClass)
    ensures
        ({
            let rest = text::left_trimmed(s, class);
            rest.len() > 0 ==> rest.last() == s.last()
        }),
    decreases s.len(),
{
    if s.len() > 0 && class.has_char(s.first()) {
        lemma_left_trimmed_last(s.drop_first(), class);
    }
}

/// An extension may be given with a dot before it or without one, unless it
/// begins with white space.
pub proof fn law_extension_ignores_leading_dot(given: Seq<char>)
    requires
        given.len() > 0 ==> !text::is_white_space(given.first()),
    ensures
        extension::normalized_extension(seq!['.'] + given) == extension::normalized_extension(
            given,
        ),
{
    let dotted = seq!['.'] + given;
    assert(dotted.drop_first() =~= given);
    lemma_right_trimmed_behind('.', given);
    let rest = text::trimmed(given);
    assert(text::trimmed(dotted) == seq!['.'] + rest);
    assert((seq!['.'] + rest).drop_first() =~= rest);
}

/// Trimming the end of a text does not reach a character before it that is kept.
proof fn lemma_right_trimmed_behind(c: char, s: Seq<char>)
    requires
        !text::is_white_space(c),
    ensures
        text::right_trimmed(seq![c] + s, CharClass::WhiteSpace) == seq![c] + text::right_trimmed(
            s,
            CharClass::WhiteSpace,
        ),
    decreases s.len(),
{
    let whole = seq![c] + s;
    if s.len() == 0 {
        assert(whole =~= seq![c]);
    } else {
        assert(whole.last() == s.last());
        assert(whole.drop_last() =~= seq![c] + s.drop_last());
        lemma_right_trimmed_behind(c, s.drop_last());
    }
}

/// A file in a directory is recognised by what follows the last dot of its
/// name, whatever the directory is called.
pub proof fn law_named_file_has_extension(
    directory: Seq<char>,
    stem: Seq<char>,
    ending: Seq<char>,
)
    requires
        !directory.contains('?'),
        !stem.contains('?') && !stem.contains('/'),
        !ending.contains('?') && !ending.contains('/') && !ending.contains('.'),
        1 <= text::byte_len(ending) <= 12,
    ensures
        extension::path_extension(directory.push('/') + (stem.push('.') + ending)) == Some(
            extension::normalized_extension(ending),
        ),
{
    let name = stem.push('.') + ending;
    let path = directory.push('/') + name;
    assert forall|c: char| c != '.' && !stem.contains(c) && !ending.contains(c) implies
        !#[trigger] name.contains(c) by {
        text::lemma_push_contains(stem, '.', c);
        text::lemma_add_contains(stem.push('.'), ending, c);
    }
    assert(!path.contains('?')) by {
        text::lemma_push_contains(directory, '/', '?');
        text::lemma_add_contains(directory.push('/'), name, '?');
    }
    path.index_of_first_ensures('?');
    lemma_split_at_last(directory, '/', name);
    lemma_split_at_last(stem, '.', ending);
}

/// A file whose extension the request names is worth reporting, in whatever
/// form the request gives the extension, and whatever the answer says.
pub proof fn law_selected_extension_is_reported(
    presets: Seq<FilePresetView>,
    keys: Seq<Seq<char>>,
    custom: Seq<Seq<char>>,
    selected: Seq<Seq<char>>,
    place: int,
    path: Seq<char>,
    everything: bool,
    content_type: Seq<char>,
)
    requires
        options::lists_once(selected, options::named_extensions(presets, keys, custom)),
        0 <= place < custom.len(),
        extension::path_extension(path) == Some(extension::normalized_extension(custom[place])),
    ensures
        content::worth_reporting(path, selected, everything, content_type),
{
    let wanted = extension::normalized_extension(custom[place]);
    let own = options::all_normalized(custom);
    assert(own[place] == wanted);
    let by_preset = keys.map_values(
        |key: Seq<char>| options::preset_extensions(presets, key),
    ).flatten();
    text::lemma_add_contains(by_preset, own, wanted);
    assert(selected.contains(wanted));
}

/// Where not everything is asked for, nothing is reported but files with an
/// extension that the request names.
pub proof fn law_only_selected_extensions_are_reported(
    presets: Seq<FilePresetView>,
    keys: Seq<Seq<char>>,
    custom: Seq<Seq<char>>,
    selected: Seq<Seq<char>>,
    path: Seq<char>,
    content_type: Seq<char>,
)
    requires
        options::lists_once(selected, options::named_extensions(presets, keys, custom)),
        content::worth_reporting(path, selected, false, content_type),
    ensures
        extension::path_extension(path) matches Some(found) && options::named_extensions(
            presets,
            keys,
            custom,
        ).contains(found),
{
}

/// Every string that is collected from a document names a media file.
pub proof fn law_collected_names_are_media(document: JsonView, i: int)
    requires
        0 <= i < json::media_filenames(document).len(),
    ensures
        urls::media_path(json::media_filenames(document)[i]),
    decreases document,
{
    match document {
        JsonView::Text(value) => {},
        JsonView::Array(items) => {
            lemma_collected_of_items(items, i);
        },
        JsonView::Object(items) => {
            lemma_collected_of_items(items, i);
        },
        JsonView::Other => {},
    }
}

proof fn lemma_collected_of_items(items: Seq<JsonView>, i: int)
    requires
        0 <= i < json::media_filenames_of(items).len(),
    ensures
        urls::media_path(json::media_filenames_of(items)[i]),
    decreases items,
{
    let before = json::media_filenames_of(items.drop_last());
    if i < before.len() {
        lemma_collected_of_items(items.drop_last(), i);
    } else {
        law_collected_names_are_media(items.last(), i - before.len());
    }
}

/// The base of a scan always names one of the two schemes of the web, and an
/// input that is complete already is taken as it is.
pub proof fn law_base_text_is_complete(input: Seq<char>)
    ensures
        "http://"@.is_prefix_of(urls::base_text(input)) || "https://"@.is_prefix_of(
            urls::base_text(input),
        ),
        urls::base_text(urls::base_text(input)) == urls::base_text(input),
{
    reveal_strlit("http://");
    reveal_strlit("https://");
    let given = text::trimmed(input);
    let full = urls::base_text(input);
    lemma_trimmed_ends(input);
    if full != given {
        assert(full.take("https://"@.len() as int) =~= "https://"@);
        assert(full.first() == 'h');
        if given.len() == 0 {
            assert(full =~= "https://"@);
        } else {
            assert(full.last() == given.last());
        }
    }
    lemma_trimmed_stays(full);
}

/// A normalised domain has no upper-case letter and no slash at its end.
pub proof fn law_normalized_domain(domain: Seq<char>)
    ensures
        text::lowercased(subdomain::normalized_domain(domain)) == subdomain::normalized_domain(
            domain,
        ),
        subdomain::normalized_domain(domain).len() > 0 ==> subdomain::normalized_domain(
            domain,
        ).last() != '/',
{
    let bare = text::prefixes_removed(
        text::prefixes_removed(text::trimmed(domain), "http://"@),
        "https://"@,
    );
    let cut = text::right_trimmed(bare, CharClass::Only('/'));
    lemma_right_trimmed_fixed(bare, CharClass::Only('/'));
    lemma_lowercased_twice(cut);
}

/// Whether a text is a domain as it stands: in lower case, without a scheme, and
/// with neither white space nor a slash at its ends.
pub open spec fn plain_domain(domain: Seq<char>) -> bool {
    &&& domain.len() > 0
    &&& text::lowercased(domain) == domain
    &&& !"http://"@.is_prefix_of(domain) && !"https://"@.is_prefix_of(domain)
    &&& !text::is_white_space(domain.first()) && !text::is_white_space(domain.last())
    &&& domain.last() != '/'
}

/// A domain can be given plain, with either scheme, and with a slash at its end.
pub proof fn law_domain_forms(domain: Seq<char>)
    requires
        plain_domain(domain),
    ensures
        subdomain::normalized_domain(domain) == domain,
        subdomain::normalized_domain(domain.push('/')) == domain,
        subdomain::normalized_domain("http://"@ + domain) == domain,
        subdomain::normalized_domain("http://"@ + domain.push('/')) == domain,
        subdomain::normalized_domain("https://"@ + domain) == domain,
        subdomain::normalized_domain("https://"@ + domain.push('/')) == domain,
{
    lemma_domain_with_slash(domain, domain);
    lemma_domain_with_slash(domain, domain.push('/'));
}

/// What is left of a domain with or without a slash, whatever scheme it has.
proof fn lemma_domain_with_slash(domain: Seq<char>, given: Seq<char>)
    requires
        plain_domain(domain),
        given == domain || given == domain.push('/'),
    ensures
        subdomain::normalized_domain(given) == domain,
        subdomain::normalized_domain("http://"@ + given) == domain,
        subdomain::normalized_domain("https://"@ + given) == domain,
{
    reveal_strlit("http://");
    reveal_strlit("https://");
    let slash = CharClass::Only('/');
    assert(domain.push('/').drop_last() =~= domain);
    assert(text::right_trimmed(domain, slash) == domain);
    assert(text::right_trimmed(given, slash) == domain);
    assert(given.first() == domain.first());
    lemma_no_scheme(domain, given, "http://"@);
    lemma_no_scheme(domain, given, "https://"@);
    lemma_trimmed_stays(given);
    lemma_scheme_removed("http://"@, given);
    lemma_scheme_removed("https://"@, given);
    let with_https = "https://"@ + given;
    assert(!"http://"@.is_prefix_of(with_https)) by {
        assert("http://"@[4] == ':');
        assert(with_https[4] == 's');
    }
    assert(text::prefixes_removed(with_https, "http://"@) == with_https);
}

/// A plain domain with a slash behind it has no scheme either.
proof fn lemma_no_scheme(domain: Seq<char>, given: Seq<char>, scheme: Seq<char>)
    requires
        plain_domain(domain),
        given == domain || given == domain.push('/'),
        scheme == "http://"@ || scheme == "https://"@,
    ensures
        !scheme.is_prefix_of(given),
{
    reveal_strlit("http://");
    reveal_strlit("https://");
    let n = scheme.len() as int;
    if scheme.is_prefix_of(given) {
        if n <= domain.len() {
            assert(given.take(n) =~= domain.take(n));
        } else {
            assert(n == domain.len() + 1);
            assert(scheme[n - 2] == '/');
            assert(given[n - 2] == domain.last());
            assert(scheme[n - 2] == given[n - 2]);
        }
    }
}

proof fn lemma_scheme_removed(scheme: Seq<char>, given: Seq<char>)
    requires
        scheme == "http://"@ || scheme == "https://"@,
        given.len() > 0,
        !text::is_white_space(given.last()),
        !scheme.is_prefix_of(given),
    ensures
        text::trimmed(scheme + given) == scheme + given,
        text::prefixes_removed(scheme + given, scheme) == given,
{
    reveal_strlit("http://");
    reveal_strlit("https://");
    let whole = scheme + given;
    assert(whole.first() == 'h');
    assert(whole.last() == given.last());
    lemma_trimmed_stays(whole);
    assert(whole.take(scheme.len() as int) =~= scheme);
    assert(whole.skip(scheme.len() as int) =~= given);
    assert(text::prefixes_removed(given, scheme) == given);
}

/// There is one host for each label; each lies under the domain, and different
/// labels give different hosts.
pub proof fn law_hosts_lie_under_domain(labels: Seq<Seq<char>>, domain: Seq<char>, i: int, j: int)
    requires
        0 <= i < labels.len(),
        0 <= j < labels.len(),
    ensures
        subdomain::hosts_of(labels, domain).len() == labels.len(),
        ("."@ + domain).is_suffix_of(subdomain::hosts_of(labels, domain)[i]),
        subdomain::hosts_of(labels, domain)[i] == subdomain::hosts_of(labels, domain)[j]
            ==> labels[i] == labels[j],
{
    let tail = "."@ + domain;
    let one = subdomain::hosts_of(labels, domain)[i];
    let other = subdomain::hosts_of(labels, domain)[j];
    assert(one =~= labels[i] + tail);
    assert(other =~= labels[j] + tail);
    assert(one.subrange(one.len() - tail.len(), one.len() as int) =~= tail);
    if one == other {
        assert(labels[i] =~= one.take(labels[i].len() as int));
        assert(labels[j] =~= other.take(labels[j].len() as int));
    }
}

/// The directory of a path begins it, and ends with a slash.
pub proof fn law_directory_begins_path(path: Seq<char>)
    requires
        path.len() > 0 && path.first() == '/',
    ensures
        urls::directory_path(path).is_prefix_of(path),
        urls::directory_path(path).last() == '/',
        urls::directory_path(path).first() == '/',
{
    path.index_of_last_ensures('/');
    assert(path.contains('/')) by {
        assert(path[0] == '/');
    }
    let i = path.index_of_last('/')->Some_0;
    let popped = urls::segment_popped(path);
    let bare = urls::slash_popped(popped);
    let n = urls::directory_path(path).len() as int;
    assert(path[i] == '/');
    assert(urls::directory_path(path) =~= path.take(n));
}

/// The directory of a URL lies on its origin; its path, but for that of a file
/// URL, is the directory of the path.
pub proof fn law_directory_stays_on_origin(of: UrlView)
    ensures
        urls::on_same_origin(urls::directory_url(of), of),
        of.scheme != "file"@ ==> urls::directory_url(of).path == urls::directory_path(of.path),
{
}

/// Probes with different numbers have different paths, and the two paths of one
/// number differ.
pub proof fn law_probe_paths_differ(n: nat, m: nat)
    requires
        n != m,
    ensures
        soft404::probe_paths(n)[0] != soft404::probe_paths(m)[0],
        soft404::probe_paths(n)[1] != soft404::probe_paths(m)[1],
        soft404::probe_paths(n)[0] != soft404::probe_paths(n)[1],
{
    number::law_decimal_reads_back(n);
    number::law_decimal_reads_back(m);
    let (a, b) = (number::decimal_text(n), number::decimal_text(m));
    lemma_framed(".mocha-scanner-missing-"@, a, b, ".txt"@);
    lemma_framed("mocha-scanner/missing-"@, a, b, ".json"@);
    reveal_strlit(".mocha-scanner-missing-");
    reveal_strlit("mocha-scanner/missing-");
    assert(soft404::probe_paths(n)[0][0] == '.');
    assert(soft404::probe_paths(n)[1][0] == 'm');
}

/// Different texts between the same ends make the whole different.
proof fn lemma_framed(head: Seq<char>, a: Seq<char>, b: Seq<char>, tail: Seq<char>)
    requires
        a != b,
    ensures
        head + a + tail != head + b + tail,
{
    let one = head + a + tail;
    let other = head + b + tail;
    if one == other {
        assert(one.len() == other.len());
        assert(a =~= one.subrange(head.len() as int, (head.len() + a.len()) as int));
        assert(b =~= other.subrange(head.len() as int, (head.len() + b.len()) as int));
        assert(a == b);
    }
}

/// A candidate that a server answers just as it answered a probe for a missing
/// file is not reported.
pub proof fn law_answer_of_a_probe_is_not_reported(
    probes: Seq<Option<ProbeResponseView>>,
    place: int,
    url: UrlView,
    extensions: Seq<Seq<char>>,
    everything: bool,
    response: CandidateResponseView,
)
    requires
        0 <= place < probes.len(),
        probes[place] == Some(
            ProbeResponseView {
                status: response.status,
                content_type: response.content_type,
                body: response.body,
            },
        ),
    ensures
        candidate::judged(url, extensions, soft404::profile_of(probes), everything, response)
            is None,
{
    let pick = |given: Option<ProbeResponseView>| soft404::sample_if_any(given);
    let sample = soft404::sample_of(probes[place]->Some_0);
    let samples = soft404::profile_of(probes);
    lemma_filter_map_has(probes, pick, place);
    let i = choose|i: int| 0 <= i < samples.len() && samples[i] == sample;
    assert(samples[i].looks_like(
        response.status,
        content::family_of(soft404::header_or_empty(response.content_type)),
        response.body.len() as usize,
        soft404::signature_of(response.body),
    ));
}

/// What is picked at some place is among all that is picked.
pub(crate) proof fn lemma_filter_map_has<A, B>(s: Seq<A>, pick: spec_fn(A) -> Option<B>, place: int)
    requires
        0 <= place < s.len(),
        pick(s[place]) is Some,
    ensures
        s.filter_map(pick).contains(pick(s[place])->Some_0),
    decreases s.len(),
{
    let found = pick(s[place])->Some_0;
    let last = s.len() - 1;
    s.lemma_filter_map_take_succ(pick, last);
    assert(s.take(last + 1) =~= s);
    let before = s.take(last).filter_map(pick);
    if place < last {
        lemma_filter_map_has(s.take(last), pick, place);
        let i = choose|i: int| 0 <= i < before.len() && before[i] == found;
        assert(s.filter_map(pick)[i] == found);
    } else {
        assert(s.filter_map(pick)[before.len() as int] == found);
    }
}

/// What is reported of a candidate is its own URL, with a size, and with a
/// status that names neither a missing file, nor a missing range, nor an error
/// of the server, nor a part of a file.
pub proof fn law_reported_candidate(
    url: UrlView,
    extensions: Seq<Seq<char>>,
    samples: Seq<soft404::Soft404SampleView>,
    everything: bool,
    response: CandidateResponseView,
)
    ensures
        candidate::judged(url, extensions, samples, everything, response) matches Some(result) ==> {
            &&& result.url == url.text
            &&& result.size is Some
            &&& !candidate::status_rejected(result.status)
            &&& result.status != 206
        },
{
}

/// No scan has checked more than its total.
pub proof fn law_progress_stays_in_total(
    counters: ScanCounters,
    total_hint: usize,
    elapsed_ms: u128,
)
    ensures
        ({
            let progress = results::progress_of(counters, total_hint, elapsed_ms);
            progress.checked <= progress.total && total_hint <= progress.total
        }),
{
}

/// Some texts with commas between them.
pub open spec fn joined(items: Seq<Seq<char>>) -> Seq<char>
    decreases items.len(),
{
    if items.len() == 0 {
        Seq::empty()
    } else if items.len() == 1 {
        items[0]
    } else {
        joined(items.drop_last()).push(',') + items.last()
    }
}

/// Whether a text can be an item of a comma-separated list.
pub open spec fn plain_item(item: Seq<char>) -> bool {
    item.len() > 0 && text::trimmed(item) == item && !item.contains(',')
}

proof fn lemma_pieces_some(s: Seq<char>, class: CharClass)
    ensures
        text::pieces(s, class).len() > 0,
    decreases s.len(),
{
    if s.len() > 0 {
        lemma_pieces_some(s.drop_last(), class);
    }
}

/// A text without a comma is one piece.
proof fn lemma_pieces_of_item(item: Seq<char>)
    requires
        !item.contains(','),
    ensures
        text::pieces(item, CharClass::Only(',')) == seq![item],
    decreases item.len(),
{
    let class = CharClass::Only(',');
    if item.len() == 0 {
        assert(item =~= Seq::empty());
    } else {
        let rest = item.drop_last();
        assert(item.contains(item.last()));
        assert(!rest.contains(',')) by {
            if rest.contains(',') {
                let i = choose|i: int| 0 <= i < rest.len() && rest[i] == ',';
                assert(item[i] == ',');
            }
        }
        lemma_pieces_of_item(rest);
        assert(rest.push(item.last()) =~= item);
        assert(text::pieces(item, class) =~= seq![item]);
    }
}

/// A comma parts the pieces before it from those behind it.
proof fn lemma_pieces_parted(a: Seq<char>, b: Seq<char>)
    ensures
        text::pieces(a.push(',') + b, CharClass::Only(',')) == text::pieces(
            a,
            CharClass::Only(','),
        ) + text::pieces(b, CharClass::Only(',')),
    decreases b.len(),
{
    let class = CharClass::Only(',');
    let whole = a.push(',') + b;
    let left = text::pieces(a, class);
    if b.len() == 0 {
        assert(whole =~= a.push(','));
        assert(whole.drop_last() =~= a);
        assert(text::pieces(whole, class) =~= left + text::pieces(b, class));
    } else {
        let rest = b.drop_last();
        lemma_pieces_parted(a, rest);
        lemma_pieces_some(rest, class);
        assert(whole.drop_last() =~= a.push(',') + rest);
        assert(whole.last() == b.last());
        let right = text::pieces(rest, class);
        assert((left + right).last() == right.last());
        assert(text::pieces(whole, class) =~= left + text::pieces(b, class));
    }
}

/// What is picked of two lists one after the other.
proof fn lemma_filter_map_push<A, B>(s: Seq<A>, last: A, pick: spec_fn(A) -> Option<B>)
    ensures
        s.push(last).filter_map(pick) == s.filter_map(pick) + (match pick(last) {
            Some(found) => seq![found],
            None => Seq::empty(),
        }),
{
    let all = s.push(last);
    all.lemma_filter_map_take_succ(pick, s.len() as int);
    assert(all.take(s.len() as int) =~= s);
    assert(all.take(s.len() as int + 1) =~= all);
}

/// A comma-separated list reads back what was written into it.
pub proof fn law_list_reads_back(items: Seq<Seq<char>>)
    requires
        forall|i: int| 0 <= i < items.len() ==> plain_item(#[trigger] items[i]),
    ensures
        options::csv_items(joined(items)) == items,
    decreases items.len(),
{
    let class = CharClass::Only(',');
    let pick = |piece: Seq<char>| options::csv_item(piece);
    if items.len() == 0 {
        let none: Seq<char> = Seq::empty();
        assert(!none.contains(','));
        lemma_pieces_of_item(none);
        let before: Seq<Seq<char>> = Seq::empty();
        lemma_filter_map_push(before, none, pick);
        assert(before.push(none) =~= text::pieces(none, class));
        assert(text::trimmed(none) =~= none);
        assert(before.filter_map(pick) =~= Seq::empty());
        assert(options::csv_items(joined(items)) =~= items);
    } else {
        let rest = items.drop_last();
        let last = items.last();
        assert(plain_item(items[items.len() - 1]));
        lemma_pieces_of_item(last);
        if items.len() == 1 {
            let before: Seq<Seq<char>> = Seq::empty();
            lemma_filter_map_push(before, last, pick);
            assert(before.push(last) =~= text::pieces(last, class));
            assert(before.filter_map(pick) =~= Seq::empty());
        } else {
            assert forall|i: int| 0 <= i < rest.len() implies plain_item(#[trigger] rest[i]) by {
                assert(rest[i] == items[i]);
            }
            law_list_reads_back(rest);
            let written = joined(rest);
            lemma_pieces_parted(written, last);
            let before = text::pieces(written, class);
            lemma_filter_map_push(before, last, pick);
            assert(before.push(last) =~= before + seq![last]);
        }
        assert(options::csv_items(joined(items)) =~= items);
    }
}

proof fn lemma_pieces_have_no(s: Seq<char>, class: CharClass, i: int, j: int)
    requires
        0 <= i < text::pieces(s, class).len(),
        0 <= j < text::pieces(s, class)[i].len(),
    ensures
        !class.has_char(text::pieces(s, class)[i][j]),
    decreases s.len(),
{
    if s.len() > 0 {
        let before = text::pieces(s.drop_last(), class);
        lemma_pieces_some(s.drop_last(), class);
        if class.has_char(s.last()) {
            if i < before.len() {
                lemma_pieces_have_no(s.drop_last(), class, i, j);
            }
        } else if i < before.len() - 1 {
            lemma_pieces_have_no(s.drop_last(), class, i, j);
        } else if j < before.last().len() {
            lemma_pieces_have_no(s.drop_last(), class, i, j);
        }
    }
}

proof fn lemma_left_trimmed_within(s: Seq<char>, class: CharClass, c: char)
    requires
        text::left_trimmed(s, class).contains(c),
    ensures
        s.contains(c),
    decreases s.len(),
{
    if s.len() > 0 && class.has_char(s.first()) {
        lemma_left_trimmed_within(s.drop_first(), class, c);
        let rest = s.drop_first();
        let i = choose|i: int| 0 <= i < rest.len() && rest[i] == c;
        assert(s[i + 1] == c);
    }
}

/// An item of a comma-separated list is never empty, has no white space at its
/// ends, and holds no comma.
pub proof fn law_list_items_are_plain(value: Seq<char>, i: int)
    requires
        0 <= i < options::csv_items(value).len(),
    ensures
        plain_item(options::csv_items(value)[i]),
{
    let class = CharClass::Only(',');
    let pick = |piece: Seq<char>| options::csv_item(piece);
    let parts = text::pieces(value, class);
    let item = options::csv_items(value)[i];
    assert(options::csv_items(value).contains(item));
    parts.lemma_filter_map_contains(pick, item);
    let part = choose|part: Seq<char>| #[trigger] parts.contains(part) && pick(part) == Some(item);
    let k = choose|k: int| 0 <= k < parts.len() && parts[k] == part;
    assert(item == text::trimmed(part));
    lemma_trimmed_ends(part);
    lemma_trimmed_stays(item);
    if item.contains(',') {
        let left = text::left_trimmed(part, CharClass::WhiteSpace);
        lemma_right_trimmed_fixed(left, CharClass::WhiteSpace);
        let at = choose|at: int| 0 <= at < item.len() && item[at] == ',';
        assert(left[at] == ',');
        lemma_left_trimmed_within(part, CharClass::WhiteSpace, ',');
        let j = choose|j: int| 0 <= j < part.len() && part[j] == ',';
        lemma_pieces_have_no(value, class, k, j);
    }
}

/// The key of a preset can be written in any case.
pub proof fn law_preset_key_ignores_case(presets: Seq<FilePresetView>, key: Seq<char>)
    ensures
        options::preset_named(presets, text::lowercased(key)) == options::preset_named(
            presets,
            key,
        ),
    decreases presets.len(),
{
    lemma_lowercased_twice(key);
    if presets.len() > 0 {
        law_preset_key_ignores_case(presets.drop_first(), key);
    }
}

/// The counters after some candidates were checked, with or without success.
pub open spec fn with_outcomes(counters: ScanCounters, found: Seq<bool>) -> ScanCounters
    decreases found.len(),
{
    if found.len() == 0 {
        counters
    } else {
        with_outcomes(counters, found.drop_last()).with_outcome(found.last())
    }
}

/// How many of some candidates were found.
pub open spec fn successes(found: Seq<bool>) -> nat
    decreases found.len(),
{
    if found.len() == 0 {
        0
    } else {
        successes(found.drop_last()) + if found.last() {
            1nat
        } else {
            0nat
        }
    }
}

/// The workers of a scan count truly: what they have checked is the number of
/// candidates, and what they have found the number of successes among them, as
/// long as these numbers fit.
pub proof fn law_outcomes_are_counted(counters: ScanCounters, found: Seq<bool>)
    requires
        counters.checked + found.len() <= usize::MAX,
        counters.found + found.len() <= usize::MAX,
    ensures
        with_outcomes(counters, found).checked == counters.checked + found.len(),
        with_outcomes(counters, found).found == counters.found + successes(found),
        successes(found) <= found.len(),
    decreases found.len(),
{
    if found.len() > 0 {
        law_outcomes_are_counted(counters, found.drop_last());
    }
}

/// A host is requested only where it has an address, and at most twice; it is
/// found just where it has an address, whether it answers or not.
pub proof fn law_host_is_requested_at_most_twice(
    host: Seq<char>,
    addresses: Seq<Seq<char>>,
    failures: usize,
    answer: Option<(u16, u128)>,
)
    ensures
        match subdomain::host_step(host, addresses, failures, answer) {
            subdomain::HostActionView::Get { .. } => addresses.len() > 0 && failures < 2
                && answer is None,
            subdomain::HostActionView::Done { result } => result is Some <==> addresses.len() > 0,
        },
{
}

/// What stands in one of several lists stands in all of them put together.
pub(crate) proof fn lemma_flatten_has<A>(lists: Seq<Seq<A>>, i: int, j: int)
    requires
        0 <= i < lists.len(),
        0 <= j < lists[i].len(),
    ensures
        lists.flatten().contains(lists[i][j]),
    decreases lists.len(),
{
    let rest = lists.drop_last();
    let last = lists.last();
    rest.lemma_flatten_push(last);
    assert(rest.push(last) =~= lists);
    if i < rest.len() {
        lemma_flatten_has(rest, i, j);
        assert(rest[i] == lists[i]);
    } else {
        assert(last.contains(last[j]));
    }
    text::lemma_add_contains(rest.flatten(), last, lists[i][j]);
}

/// A path with the mark for an extension is tried with each selected extension;
/// with each extension of each preset where everything is looked for or nothing
/// is selected.
pub proof fn law_marked_path_is_tried_with_each_extension(
    patterns: Seq<Seq<char>>,
    presets: Seq<FilePresetView>,
    extensions: Seq<Seq<char>>,
    everything: bool,
    place: int,
    preset: int,
    i: int,
)
    requires
        0 <= place < patterns.len(),
        text::has_text(patterns[place], "{ext}"@),
    ensures
        !everything && 0 <= i < extensions.len() ==> brute::tried_paths(
            patterns,
            presets,
            extensions,
            everything,
        ).contains(
            text::replaced(
                patterns[place],
                "{ext}"@,
                text::left_trimmed(extensions[i], CharClass::Only('.')),
            ),
        ),
        (everything || extensions.len() == 0) && 0 <= preset < presets.len() && 0 <= i
            < presets[preset].extensions.len() ==> brute::tried_paths(
            patterns,
            presets,
            extensions,
            everything,
        ).contains(
            text::replaced(
                patterns[place],
                "{ext}"@,
                text::left_trimmed(presets[preset].extensions[i], CharClass::Only('.')),
            ),
        ),
{
    let filling = brute::filled_extensions(presets, extensions, everything);
    let blocks = patterns.map_values(|pattern: Seq<char>| brute::filled_paths(pattern, filling));
    assert(blocks[place] == brute::filled_paths(patterns[place], filling));
    if !everything && 0 <= i < extensions.len() {
        lemma_flatten_has(blocks, place, i);
    }
    if (everything || extensions.len() == 0) && 0 <= preset < presets.len() && 0 <= i
        < presets[preset].extensions.len() {
        let lists = presets.map_values(|one: FilePresetView| one.extensions);
        let wanted = presets[preset].extensions[i];
        assert(lists[preset] == presets[preset].extensions);
        lemma_flatten_has(lists, preset, i);
        let k = choose|k: int| 0 <= k < filling.len() && filling[k] == wanted;
        lemma_flatten_has(blocks, place, k);
    }
}

/// A path without the mark is tried as it is.
pub proof fn law_plain_path_is_tried(
    patterns: Seq<Seq<char>>,
    presets: Seq<FilePresetView>,
    extensions: Seq<Seq<char>>,
    everything: bool,
    place: int,
)
    requires
        0 <= place < patterns.len(),
        !text::has_text(patterns[place], "{ext}"@),
    ensures
        brute::tried_paths(patterns, presets, extensions, everything).contains(patterns[place]),
{
    let filling = brute::filled_extensions(presets, extensions, everything);
    let blocks = patterns.map_values(|pattern: Seq<char>| brute::filled_paths(pattern, filling));
    assert(blocks[place] == brute::filled_paths(patterns[place], filling));
    lemma_flatten_has(blocks, place, 0);
}

/// A media file that a manifest names is looked for beside the manifest and,
/// where its name is bare, in each media directory of the origin.
pub proof fn law_named_media_is_looked_for(
    document: JsonView,
    directories: Seq<Seq<char>>,
    i: int,
    j: int,
)
    requires
        0 <= i < json::media_filenames(document).len(),
        0 <= j < directories.len(),
    ensures
        ({
            let filename = json::media_filenames(document)[i];
            let found = manifest::document_references(document, directories);
            &&& found.contains(ManifestReferenceView { from_origin: false, target: filename })
            &&& extension::bare_filename(filename) ==> found.contains(
                ManifestReferenceView {
                    from_origin: true,
                    target: directories[j] + "/"@ + filename,
                },
            )
        }),
{
    let names = json::media_filenames(document);
    let filename = names[i];
    let blocks = names.map_values(
        |name: Seq<char>| manifest::filename_references(name, directories),
    );
    let block = manifest::filename_references(filename, directories);
    assert(blocks[i] == block);
    assert(manifest::with_companions(filename)[0] == filename);
    let beside = manifest::beside_manifest(filename);
    assert(beside[0] == ManifestReferenceView { from_origin: false, target: filename });
    assert(block[0] == beside[0]);
    lemma_flatten_has(blocks, i, 0);
    if extension::bare_filename(filename) {
        let inside = directories.map_values(
            |directory: Seq<char>| manifest::in_directory(directory, filename),
        );
        let wanted = ManifestReferenceView {
            from_origin: true,
            target: directories[j] + "/"@ + filename,
        };
        assert(inside[j] == manifest::in_directory(directories[j], filename));
        assert(inside[j][0] == wanted);
        lemma_flatten_has(inside, j, 0);
        text::lemma_add_contains(beside, inside.flatten(), wanted);
        let k = choose|k: int| 0 <= k < block.len() && block[k] == wanted;
        lemma_flatten_has(blocks, i, k);
    }
}

} // verus!
