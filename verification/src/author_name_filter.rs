use crate::json_value::{json_field, json_members, json_str, Json};
use crate::text::{chars_eq, chars_of, lowercase, lowercase_chars, str_eq, string_of_chars};
use vstd::prelude::*;

verus! {

#[verifier::external_type_specification]
#[verifier::external_body]
pub struct ExRegex(regex::Regex);

#[verifier::external_type_specification]
#[verifier::external_body]
pub struct ExRegexError(regex::Error);

/// Whether `regex::Regex::new` compiles a pattern.
pub uninterp spec fn regex_compiles(pattern: Seq<char>) -> bool;

/// The text that `regex::Regex::replace_all` gives with an empty
/// replacement: the text without the matches of the pattern.
pub uninterp spec fn regex_removed(pattern: Seq<char>, text: Seq<char>) -> Seq<char>;

/// A compiled regular expression, with the pattern it was compiled from.
#[derive(Debug)]
pub struct RegexFilter {
    pattern: String,
    re: regex::Regex,
}

impl View for RegexFilter {
    type V = Seq<char>;

    closed spec fn view(&self) -> Seq<char> {
        self.pattern@
    }
}

/// `regex::Regex::new`: it succeeds exactly on the patterns it compiles.
#[verifier::external_body]
fn regex_new(pattern: &str) -> (r: Result<regex::Regex, regex::Error>)
    ensures
        r is Ok == regex_compiles(pattern@),
{
    regex::Regex::new(pattern)
}

/// `regex::Regex::replace_all` with an empty replacement, on the regular
/// expression that was compiled from the filter's pattern.
#[verifier::external_body]
fn regex_remove_all(f: &RegexFilter, text: &str) -> (r: String)
    ensures
        r@ == regex_removed(f@, text@),
{
    f.re.replace_all(text, "").to_string()
}

impl RegexFilter {
    #[verifier::type_invariant]
    spec fn compiled(self) -> bool {
        regex_compiles(self.pattern@)
    }

    /// Compiles a pattern.
    pub fn new(pattern: &str) -> (r: Result<Self, regex::Error>)
        ensures
            r is Ok == regex_compiles(pattern@),
            r matches Ok(f) ==> f@ == pattern@,
    {
        match regex_new(pattern) {
            Ok(re) => Ok(RegexFilter { pattern: String::from_str(pattern), re }),
            Err(e) => Err(e),
        }
    }

    /// A pattern that compiled compiles again.
    pub fn recompile(&self) -> (r: Self)
        ensures
            r@ == self@,
    {
        proof {
            use_type_invariant(self);
        }
        Self::new(self.pattern.as_str()).unwrap()
    }

    /// The pattern the expression was compiled from.
    pub fn as_str(&self) -> (r: &str)
        ensures
            r@ == self@,
    {
        self.pattern.as_str()
    }
}

impl Clone for RegexFilter {
    fn clone(&self) -> (r: Self)
        ensures
            r@ == self@,
    {
        self.recompile()
    }
}

/// What a filter is: a text whose last occurrence, and what follows it, is
/// cut from a name, or a pattern whose matches are removed from it.
pub enum FilterView {
    Simple(Seq<char>),
    Regex(Seq<char>),
}

#[derive(Clone, Debug)]
pub enum AuthorNameFilter {
    Simple(String),
    Regex(RegexFilter),
}

impl View for AuthorNameFilter {
    type V = FilterView;

    open spec fn view(&self) -> FilterView {
        match self {
            AuthorNameFilter::Simple(s) => FilterView::Simple(s@),
            AuthorNameFilter::Regex(r) => FilterView::Regex(r@),
        }
    }
}

/// What an error of reading filters is: a message, or a pattern that did
/// not compile.
pub enum FilterErrorView {
    Message(Seq<char>),
    Regex,
}

#[derive(Debug)]
pub enum AuthorNameFilterError {
    String(String),
    Regex(regex::Error),
}

impl View for AuthorNameFilterError {
    type V = FilterErrorView;

    open spec fn view(&self) -> FilterErrorView {
        match self {
            AuthorNameFilterError::String(s) => FilterErrorView::Message(s@),
            AuthorNameFilterError::Regex(_) => FilterErrorView::Regex,
        }
    }
}

impl From<&str> for AuthorNameFilterError {
    fn from(s: &str) -> (r: Self) {
        Self::String(String::from_str(s))
    }
}

impl vstd::std_specs::convert::FromSpecImpl<&str> for AuthorNameFilterError {
    open spec fn obeys_from_spec() -> bool {
        false
    }

    open spec fn from_spec(s: &str) -> Self {
        AuthorNameFilterError::String(arbitrary())
    }
}

impl From<&str> for AuthorNameFilter {
    fn from(s: &str) -> (r: Self) {
        Self::Simple(String::from_str(s))
    }
}

impl vstd::std_specs::convert::FromSpecImpl<&str> for AuthorNameFilter {
    open spec fn obeys_from_spec() -> bool {
        false
    }

    open spec fn from_spec(s: &str) -> Self {
        AuthorNameFilter::Simple(arbitrary())
    }
}

/// Whether `n` occurs in `h` at index `i`.
pub open spec fn occurs_at(h: Seq<char>, n: Seq<char>, i: int) -> bool {
    0 <= i && i + n.len() <= h.len() && h.subrange(i, i + n.len()) == n
}

/// The last index at most `k` at which `n` occurs in `h`.
pub open spec fn last_occurrence(h: Seq<char>, n: Seq<char>, k: int) -> Option<int>
    decreases k + 1,
{
    if k < 0 {
        None
    } else if occurs_at(h, n, k) {
        Some(k)
    } else {
        last_occurrence(h, n, k - 1)
    }
}

/// The index of the last occurrence of `n` in `h`, as `str::rfind` finds it.
pub open spec fn rfind(h: Seq<char>, n: Seq<char>) -> Option<int> {
    last_occurrence(h, n, h.len() - n.len())
}

/// A name as one filter leaves it.
pub open spec fn apply_filter(f: FilterView, author: Seq<char>) -> Seq<char> {
    match f {
        FilterView::Simple(s) => match rfind(author, s) {
            Some(i) => author.take(i),
            None => author,
        },
        FilterView::Regex(p) => regex_removed(p, author),
    }
}

/// A name as a list of filters leaves it: as the first filter that changes
/// it leaves it, or unchanged.
pub open spec fn apply_filters(fs: Seq<FilterView>, author: Seq<char>) -> Seq<char>
    decreases fs.len(),
{
    if fs.len() == 0 {
        author
    } else if apply_filter(fs[0], author) != author {
        apply_filter(fs[0], author)
    } else {
        apply_filters(fs.drop_first(), author)
    }
}

/// The filters of a list, as values.
pub open spec fn filters_view(fs: Seq<AuthorNameFilter>) -> Seq<FilterView> {
    fs.map_values(|f: AuthorNameFilter| f@)
}

/// The filter a JSON value describes: a string is a simple filter; an object
/// names its `type` (`simple` or `regex`, in any case) and its `rule`.
pub open spec fn filter_from_json(j: Json) -> Result<FilterView, FilterErrorView> {
    match j {
        Json::Str(s) => Ok(FilterView::Simple(s@)),
        Json::Object(_) => match json_str(json_field(j, "type"@)) {
            None => Err(FilterErrorView::Message("Failed to get filter's type."@)),
            Some(t0) => {
                let t = lowercase(t0);
                match json_str(json_field(j, "rule"@)) {
                    None => Err(FilterErrorView::Message("Failed to get filter's rule."@)),
                    Some(rule) => if t == "simple"@ {
                        Ok(FilterView::Simple(rule))
                    } else if t == "regex"@ {
                        if regex_compiles(rule) {
                            Ok(FilterView::Regex(rule))
                        } else {
                            Err(FilterErrorView::Regex)
                        }
                    } else {
                        Err(FilterErrorView::Message("Unknown filter's type: "@ + t))
                    },
                }
            },
        },
        _ => Err(FilterErrorView::Message("Unsupported JSON type."@)),
    }
}

/// Whether `k` is the first member of an array that is not a filter.
pub open spec fn first_bad_filter(ms: Seq<Json>, k: int) -> bool {
    &&& 0 <= k < ms.len()
    &&& filter_from_json(ms[k]) is Err
    &&& forall|i: int| 0 <= i < k ==> filter_from_json(#[trigger] ms[i]) is Ok
}

/// What the last occurrence finds is an occurrence.
pub proof fn lemma_last_occurrence(h: Seq<char>, n: Seq<char>, k: int)
    ensures
        last_occurrence(h, n, k) matches Some(i) ==> occurs_at(h, n, i) && i <= k,
    decreases k + 1,
{
    if k >= 0 && !occurs_at(h, n, k) {
        lemma_last_occurrence(h, n, k - 1);
    }
}

/// Finds the last occurrence of `n` in `h`.
fn rfind_chars(h: &Vec<char>, n: &Vec<char>) -> (r: Option<usize>)
    ensures
        match r {
            Some(i) => rfind(h@, n@) == Some(i as int),
            None => rfind(h@, n@) is None,
        },
{
    if n.len() > h.len() {
        assert(h@.len() - n@.len() < 0);
        return None;
    }
    let mut k: usize = h.len() - n.len();
    loop
        invariant
            k + n@.len() <= h@.len(),
            rfind(h@, n@) == last_occurrence(h@, n@, k as int),
        decreases k,
    {
        let mut j: usize = 0;
        let mut same = true;
        let hl = h.len();
        while j < n.len()
            invariant
                j <= n@.len(),
                hl == h@.len(),
                k + n@.len() <= h@.len(),
                same == (forall|m: int| 0 <= m < j ==> h@[k + m] == n@[m]),
            decreases n@.len() - j,
        {
            let hk = k + j;
            if h[hk] != n[j] {
                same = false;
            }
            j = j + 1;
        }
        if same {
            assert(h@.subrange(k as int, k + n@.len()) =~= n@);
            return Some(k);
        } else {
            assert(!occurs_at(h@, n@, k as int)) by {
                if occurs_at(h@, n@, k as int) {
                    let m = choose|m: int| 0 <= m < n@.len() && h@[k + m] != n@[m];
                    assert(h@.subrange(k as int, k + n@.len())[m] == h@[k + m]);
                }
            }
        }
        if k == 0 {
            assert(last_occurrence(h@, n@, -1) is None);
            return None;
        }
        k = k - 1;
    }
}

/// Used to filter the author name
pub trait AuthorFiler {
    /// Used to filter the author name
    fn filter(&self, author: &str) -> String;
}

impl AuthorNameFilter {
    /// A regular expression filter.
    pub fn regex(pattern: &str) -> (r: Result<Self, AuthorNameFilterError>)
        ensures
            match r {
                Ok(f) => regex_compiles(pattern@) && f@ == FilterView::Regex(pattern@),
                Err(e) => !regex_compiles(pattern@) && e@ == FilterErrorView::Regex,
            },
    {
        match RegexFilter::new(pattern) {
            Ok(f) => Ok(AuthorNameFilter::Regex(f)),
            Err(e) => Err(AuthorNameFilterError::Regex(e)),
        }
    }

    /// The name as this filter leaves it.
    pub fn filter_name(&self, author: &str) -> (r: String)
        ensures
            r@ == apply_filter(self@, author@),
    {
        match self {
            AuthorNameFilter::Simple(s) => {
                let h = chars_of(author);
                match rfind_chars(&h, &chars_of(s.as_str())) {
                    Some(i) => {
                        proof {
                            lemma_last_occurrence(h@, s@, h@.len() - s@.len());
                        }
                        let mut out: Vec<char> = Vec::new();
                        let mut j: usize = 0;
                        while j < i
                            invariant
                                j <= i <= h@.len(),
                                out@ == h@.take(j as int),
                            decreases i - j,
                        {
                            out.push(h[j]);
                            assert(h@.take(j + 1) =~= h@.take(j as int).push(h@[j as int]));
                            j = j + 1;
                        }
                        string_of_chars(&out)
                    },
                    None => String::from_str(author),
                }
            },
            AuthorNameFilter::Regex(r) => regex_remove_all(r, author),
        }
    }

    /// Whether two filters are the same: of the same kind, with the same
    /// text or pattern.
    pub fn same(&self, other: &Self) -> (r: bool)
        ensures
            r == (self@ == other@),
    {
        match (self, other) {
            (AuthorNameFilter::Simple(a), AuthorNameFilter::Simple(b)) => str_eq(
                a.as_str(),
                b.as_str(),
            ),
            (AuthorNameFilter::Regex(a), AuthorNameFilter::Regex(b)) => str_eq(
                a.as_str(),
                b.as_str(),
            ),
            _ => false,
        }
    }

    /// Reads a filter from a JSON value.
    pub fn try_from_json(j: &Json) -> (r: Result<Self, AuthorNameFilterError>)
        ensures
            match filter_from_json(*j) {
                Ok(f) => r matches Ok(x) && x@ == f,
                Err(e) => r matches Err(x) && x@ == e,
            },
    {
        match j {
            Json::Str(s) => Ok(AuthorNameFilter::Simple(s.clone())),
            Json::Object(_) => {
                let t0 = match j.field_str("type") {
                    Some(t) => t,
                    None => {
                        return Err(AuthorNameFilterError::String(
                            String::from_str("Failed to get filter's type."),
                        ));
                    },
                };
                let t = lowercase_chars(&chars_of(t0.as_str()));
                let rule = match j.field_str("rule") {
                    Some(r) => r,
                    None => {
                        return Err(AuthorNameFilterError::String(
                            String::from_str("Failed to get filter's rule."),
                        ));
                    },
                };
                if chars_eq(&t, &chars_of("simple")) {
                    Ok(AuthorNameFilter::Simple(rule.clone()))
                } else if chars_eq(&t, &chars_of("regex")) {
                    Self::regex(rule.as_str())
                } else {
                    let mut m = String::from_str("Unknown filter's type: ");
                    m.append(string_of_chars(&t).as_str());
                    Err(AuthorNameFilterError::String(m))
                }
            },
            _ => Err(AuthorNameFilterError::String(String::from_str("Unsupported JSON type."))),
        }
    }

    /// Reads a list of filters from a JSON array: fails at the first member
    /// that is not a filter.
    pub fn from_json(v: &Json) -> (r: Result<Vec<Self>, AuthorNameFilterError>)
        ensures
            match r {
                Ok(fs) => *v is Array && fs@.len() == json_members(*v).len() && forall|i: int|
                    0 <= i < fs@.len() ==> filter_from_json(json_members(*v)[i]) == Ok::<
                        FilterView,
                        FilterErrorView,
                    >(#[trigger] fs@[i]@),
                Err(e) => (!(*v is Array) && e@ == FilterErrorView::Message(
                    "Unsupported JSON type."@,
                )) || (*v is Array && exists|k: int|
                    first_bad_filter(json_members(*v), k) && filter_from_json(json_members(*v)[k])
                        == Err::<FilterView, FilterErrorView>(e@)),
            },
            (r is Ok) == (*v is Array && forall|i: int|
                0 <= i < json_members(*v).len() ==> filter_from_json(
                    #[trigger] json_members(*v)[i],
                ) is Ok),
    {
        if !v.is_array() {
            return Err(AuthorNameFilterError::String(String::from_str("Unsupported JSON type.")));
        }
        let ms = v.members();
        let mut out: Vec<Self> = Vec::new();
        let mut i: usize = 0;
        while i < ms.len()
            invariant
                i <= ms@.len(),
                ms@ == json_members(*v),
                *v is Array,
                out@.len() == i,
                forall|k: int| 0 <= k < i ==> filter_from_json(ms@[k]) == Ok::<
                    FilterView,
                    FilterErrorView,
                >(#[trigger] out@[k]@),
            decreases ms@.len() - i,
        {
            match Self::try_from_json(&ms[i]) {
                Ok(f) => {
                    out.push(f);
                },
                Err(e) => {
                    assert(first_bad_filter(ms@, i as int)) by {
                        assert forall|k: int| 0 <= k < i implies filter_from_json(
                            #[trigger] ms@[k],
                        ) is Ok by {
                            assert(filter_from_json(ms@[k]) == Ok::<FilterView, FilterErrorView>(
                                out@[k]@,
                            ));
                        }
                    }
                    return Err(e);
                },
            }
            i = i + 1;
        }
        assert forall|k: int| 0 <= k < ms@.len() implies filter_from_json(
            #[trigger] json_members(*v)[k],
        ) is Ok by {
            assert(filter_from_json(ms@[k]) == Ok::<FilterView, FilterErrorView>(out@[k]@));
        }
        Ok(out)
    }
}

/// Whether a JSON value is a valid list of filters.
pub fn check_author_name_filters(v: &Json) -> (r: bool)
    ensures
        r == (*v is Array && forall|i: int|
            0 <= i < json_members(*v).len() ==> filter_from_json(
                #[trigger] json_members(*v)[i],
            ) is Ok),
{
    AuthorNameFilter::from_json(v).is_ok()
}

impl PartialEq for AuthorNameFilter {
    fn eq(&self, other: &Self) -> (r: bool) {
        self.same(other)
    }
}

impl vstd::std_specs::cmp::PartialEqSpecImpl for AuthorNameFilter {
    open spec fn obeys_eq_spec() -> bool {
        true
    }

    open spec fn eq_spec(&self, other: &Self) -> bool {
        self@ == other@
    }
}

impl AuthorFiler for AuthorNameFilter {
    fn filter(&self, author: &str) -> (r: String)
        ensures
            r@ == apply_filter(self@, author@),
    {
        self.filter_name(author)
    }
}

impl AuthorFiler for Vec<AuthorNameFilter> {
    /// The name as the first filter that changes it leaves it, or unchanged.
    fn filter(&self, author: &str) -> (r: String)
        ensures
            r@ == apply_filters(filters_view(self@), author@),
    {
        let ghost fs = filters_view(self@);
        let n = self.len();
        let mut i: usize = 0;
        assert(fs.skip(0) =~= fs);
        while i < n
            invariant
                i <= n == self@.len() == fs.len(),
                fs == filters_view(self@),
                apply_filters(fs, author@) == apply_filters(fs.skip(i as int), author@),
            decreases n - i,
        {
            let r = self[i].filter_name(author);
            let ghost rest = fs.skip(i as int);
            assert(rest[0] == self@[i as int]@);
            assert(rest.drop_first() =~= fs.skip(i + 1));
            if !str_eq(r.as_str(), author) {
                return r;
            }
            i = i + 1;
        }
        assert(fs.skip(n as int) =~= Seq::<FilterView>::empty());
        String::from_str(author)
    }
}

} // verus!
