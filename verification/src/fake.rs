//! Disguising requests as a browser: header profiles and the strategies that apply them.
use rand::Rng;
use vstd::prelude::*;

use crate::downloader::request::{
    insert_header_spec, merge_header_lists, valid_header_name, valid_header_value,
    FetchRequest, HeaderList,
};
use crate::error::LlphaError;
use crate::text::{lower_seq, owned};

verus! {

/// The desktop Chrome on macOS user agent of the default profile.
pub const CHROME_MAC_UA: &'static str = "Mozilla/5.0 (Macintosh; Intel Mac OS X 10_15_7) AppleWebKit/537.36 (KHTML, like Gecko) Chrome/139.0.0.0 Safari/537.36";

/// The Accept value of the default profile.
pub const HTML_ACCEPT: &'static str = "text/html,application/xhtml+xml,application/xml;q=0.9,*/*;q=0.8";

/// The Accept value of browsers that announce modern image formats.
pub const HTML_IMAGE_ACCEPT: &'static str = "text/html,application/xhtml+xml,application/xml;q=0.9,image/avif,image/webp,*/*;q=0.8";

/// The Accept-Language value of the default profile.
pub const ZH_LANGUAGE: &'static str = "zh-CN,zh;q=0.9,en;q=0.8";

/// The Accept-Encoding value of the default profile.
pub const FULL_ENCODING: &'static str = "gzip, deflate, br, zstd";

/// The Accept-Encoding value of Safari.
pub const SAFARI_ENCODING: &'static str = "gzip, deflate, br";

/// The Connection value of every profile.
pub const KEEP_ALIVE: &'static str = "keep-alive";

/// The sec-ch-ua value of Chrome.
pub const CHROME_SEC_CH_UA: &'static str = "\"Chromium\";v=\"139\", \"Google Chrome\";v=\"139\", \"Not=A?Brand\";v=\"99\"";

/// The sec-ch-ua value of Edge.
pub const EDGE_SEC_CH_UA: &'static str = "\"Microsoft Edge\";v=\"139\", \"Chromium\";v=\"139\", \"Not=A?Brand\";v=\"99\"";

/// Chrome on Windows.
pub const CHROME_WINDOWS_UA: &'static str = "Mozilla/5.0 (Windows NT 10.0; Win64; x64) AppleWebKit/537.36 (KHTML, like Gecko) Chrome/139.0.0.0 Safari/537.36";

/// Firefox on Windows.
pub const FIREFOX_WINDOWS_UA: &'static str = "Mozilla/5.0 (Windows NT 10.0; Win64; x64; rv:140.0) Gecko/20100101 Firefox/140.0";

/// Safari on macOS.
pub const SAFARI_MAC_UA: &'static str = "Mozilla/5.0 (Macintosh; Intel Mac OS X 14_7) AppleWebKit/605.1.15 (KHTML, like Gecko) Version/18.5 Safari/605.1.15";

/// Safari on iPhone.
pub const SAFARI_IPHONE_UA: &'static str = "Mozilla/5.0 (iPhone; CPU iPhone OS 18_5 like Mac OS X) AppleWebKit/605.1.15 (KHTML, like Gecko) Version/18.5 Mobile/15E148 Safari/604.1";

/// Chrome on Android.
pub const CHROME_ANDROID_UA: &'static str = "Mozilla/5.0 (Linux; Android 15; Pixel 9 Pro) AppleWebKit/537.36 (KHTML, like Gecko) Chrome/139.0.0.0 Mobile Safari/537.36";

/// Edge on Windows.
pub const EDGE_WINDOWS_UA: &'static str = "Mozilla/5.0 (Windows NT 10.0; Win64; x64) AppleWebKit/537.36 (KHTML, like Gecko) Chrome/139.0.0.0 Safari/537.36 Edg/139.0.0.0";

/// A set of browser request headers.
#[derive(Debug, PartialEq, Eq)]
pub struct FakeProfile {
    pub user_agent: String,
    pub accept: String,
    pub accept_language: String,
    pub accept_encoding: String,
    pub connection: String,
    pub extra_headers: Vec<(String, String)>,
}

/// A list of name/value pairs as texts.
pub open spec fn pairs_view(v: Seq<(String, String)>) -> Seq<(Seq<char>, Seq<char>)> {
    v.map_values(|e: (String, String)| (e.0@, e.1@))
}

/// A profile as (user agent, accept, language, encoding, connection, extra headers).
pub type ProfileView = (Seq<char>, Seq<char>, Seq<char>, Seq<char>, Seq<char>, Seq<(Seq<char>, Seq<char>)>);

impl View for FakeProfile {
    type V = ProfileView;

    open spec fn view(&self) -> ProfileView {
        (
            self.user_agent@,
            self.accept@,
            self.accept_language@,
            self.accept_encoding@,
            self.connection@,
            pairs_view(self.extra_headers@),
        )
    }
}

/// The extra headers of the default profile.
pub open spec fn default_extras() -> Seq<(Seq<char>, Seq<char>)> {
    seq![
        ("upgrade-insecure-requests"@, "1"@),
        ("sec-fetch-dest"@, "document"@),
        ("sec-fetch-mode"@, "navigate"@),
        ("sec-fetch-site"@, "none"@),
        ("sec-fetch-user"@, "?1"@),
    ]
}

/// The default profile: Chrome on macOS.
pub open spec fn default_profile_view() -> ProfileView {
    (CHROME_MAC_UA@, HTML_ACCEPT@, ZH_LANGUAGE@, FULL_ENCODING@, KEEP_ALIVE@, default_extras())
}

/// The headers that a profile sets, in order: the five standard ones, then the extras.
pub open spec fn profile_pairs(p: ProfileView) -> Seq<(Seq<char>, Seq<char>)> {
    seq![
        ("user-agent"@, p.0),
        ("accept"@, p.1),
        ("accept-language"@, p.2),
        ("accept-encoding"@, p.3),
        ("connection"@, p.4),
    ] + p.5
}

/// The header list built by inserting the first `k` pairs into `s`; the first invalid
/// name or value stops it with its error.
pub open spec fn insert_all(
    s: Seq<(Seq<char>, Seq<char>)>,
    pairs: Seq<(Seq<char>, Seq<char>)>,
    k: int,
) -> Result<Seq<(Seq<char>, Seq<char>)>, LlphaError>
    decreases k,
{
    if k <= 0 {
        Ok(s)
    } else {
        match insert_all(s, pairs, k - 1) {
            Err(e) => Err(e),
            Ok(h) => {
                let (n, v) = pairs[k - 1];
                if !valid_header_name(n) {
                    Err(LlphaError::InvalidHeaderName)
                } else if !valid_header_value(v) {
                    Err(LlphaError::InvalidHeaderValue)
                } else {
                    Ok(insert_header_spec(h, lower_seq(n), v))
                }
            },
        }
    }
}

/// The headers of a profile, or the error of its first invalid header.
pub open spec fn profile_headers(p: ProfileView) -> Result<Seq<(Seq<char>, Seq<char>)>, LlphaError> {
    insert_all(Seq::empty(), profile_pairs(p), profile_pairs(p).len() as int)
}

/// The request after merging headers into it; every other part is unchanged.
pub open spec fn merged_request(
    before: FetchRequest,
    after: FetchRequest,
    h: Seq<(Seq<char>, Seq<char>)>,
) -> bool {
    &&& after.options.headers@ == merge_header_lists(before.options.headers@, h, h.len() as int)
    &&& after.url@ == before.url@
    &&& after.method == before.method
    &&& after.body == before.body
    &&& after.options.timeout == before.options.timeout
    &&& after.options.follow_redirects == before.options.follow_redirects
}

fn pair_copy(e: &(String, String)) -> (r: (String, String))
    ensures
        r.0@ == e.0@ && r.1@ == e.1@,
{
    (e.0.clone(), e.1.clone())
}

impl Clone for FakeProfile {
    /// A copy with the same headers.
    fn clone(&self) -> (c: Self)
        ensures
            c@ == self@,
    {
        let mut extra_headers: Vec<(String, String)> = Vec::new();
        let mut i: usize = 0;
        while i < self.extra_headers.len()
            invariant
                i <= self.extra_headers@.len(),
                pairs_view(extra_headers@) == pairs_view(self.extra_headers@.take(i as int)),
            decreases self.extra_headers@.len() - i,
        {
            let pair = &self.extra_headers[i];
            let ghost before = extra_headers@;
            let name = pair.0.clone();
            let value = pair.1.clone();
            extra_headers.push((name, value));
            proof {
                let taken = self.extra_headers@.take(i + 1);
                assert(taken == self.extra_headers@.take(i as int).push(self.extra_headers@[i as int]));
                assert(extra_headers@ == before.push((name, value)));
                assert(pairs_view(before).len() == before.len());
                assert forall|j: int| 0 <= j < extra_headers@.len() implies #[trigger] pairs_view(
                    extra_headers@,
                )[j] == pairs_view(taken)[j] by {
                    if j < i {
                        assert(pairs_view(before)[j] == pairs_view(
                            self.extra_headers@.take(i as int),
                        )[j]);
                    }
                }
                assert(pairs_view(extra_headers@) =~= pairs_view(taken));
            }
            i = i + 1;
        }
        proof {
            assert(self.extra_headers@.take(i as int) == self.extra_headers@);
        }
        FakeProfile {
            user_agent: self.user_agent.clone(),
            accept: self.accept.clone(),
            accept_language: self.accept_language.clone(),
            accept_encoding: self.accept_encoding.clone(),
            connection: self.connection.clone(),
            extra_headers,
        }
    }
}

impl Default for FakeProfile {
    /// Chrome on macOS with the usual navigation headers.
    fn default() -> (p: Self)
        ensures
            p@ == default_profile_view(),
    {
        let mut extra_headers: Vec<(String, String)> = Vec::new();
        extra_headers.push((owned("upgrade-insecure-requests"), owned("1")));
        extra_headers.push((owned("sec-fetch-dest"), owned("document")));
        extra_headers.push((owned("sec-fetch-mode"), owned("navigate")));
        extra_headers.push((owned("sec-fetch-site"), owned("none")));
        extra_headers.push((owned("sec-fetch-user"), owned("?1")));
        let p = FakeProfile {
            user_agent: owned(CHROME_MAC_UA),
            accept: owned(HTML_ACCEPT),
            accept_language: owned(ZH_LANGUAGE),
            accept_encoding: owned(FULL_ENCODING),
            connection: owned(KEEP_ALIVE),
            extra_headers,
        };
        assert(pairs_view(p.extra_headers@) =~= default_extras());
        p
    }
}

impl FakeProfile {
    /// Sets the user agent.
    pub fn with_user_agent(self, user_agent: &str) -> (p: Self)
        ensures
            p@ == (user_agent@, self@.1, self@.2, self@.3, self@.4, self@.5),
    {
        FakeProfile { user_agent: owned(user_agent), ..self }
    }

    /// Sets the Accept header.
    pub fn with_accept(self, accept: &str) -> (p: Self)
        ensures
            p@ == (self@.0, accept@, self@.2, self@.3, self@.4, self@.5),
    {
        FakeProfile { accept: owned(accept), ..self }
    }

    /// Sets the Accept-Language header.
    pub fn with_accept_language(self, accept_language: &str) -> (p: Self)
        ensures
            p@ == (self@.0, self@.1, accept_language@, self@.3, self@.4, self@.5),
    {
        FakeProfile { accept_language: owned(accept_language), ..self }
    }

    /// Sets the Accept-Encoding header.
    pub fn with_accept_encoding(self, accept_encoding: &str) -> (p: Self)
        ensures
            p@ == (self@.0, self@.1, self@.2, accept_encoding@, self@.4, self@.5),
    {
        FakeProfile { accept_encoding: owned(accept_encoding), ..self }
    }

    /// Adds an extra header after the others.
    pub fn with_extra_header(self, name: &str, value: &str) -> (p: Self)
        ensures
            p@ == (self@.0, self@.1, self@.2, self@.3, self@.4, self@.5.push((name@, value@))),
    {
        let mut p = self;
        let ghost before = pairs_view(p.extra_headers@);
        p.extra_headers.push((owned(name), owned(value)));
        assert(pairs_view(p.extra_headers@) =~= before.push((name@, value@)));
        p
    }

    /// The headers that the profile sets, in order.
    fn pairs(&self) -> (v: Vec<(String, String)>)
        ensures
            pairs_view(v@) == profile_pairs(self@),
    {
        let mut v: Vec<(String, String)> = Vec::new();
        v.push((owned("user-agent"), self.user_agent.clone()));
        v.push((owned("accept"), self.accept.clone()));
        v.push((owned("accept-language"), self.accept_language.clone()));
        v.push((owned("accept-encoding"), self.accept_encoding.clone()));
        v.push((owned("connection"), self.connection.clone()));
        let ghost head = pairs_view(v@);
        let mut i: usize = 0;
        while i < self.extra_headers.len()
            invariant
                i <= self.extra_headers@.len(),
                pairs_view(v@) == head + pairs_view(self.extra_headers@).take(i as int),
            decreases self.extra_headers@.len() - i,
        {
            let ghost before = pairs_view(v@);
            v.push(pair_copy(&self.extra_headers[i]));
            assert(pairs_view(v@) =~= before.push(pairs_view(self.extra_headers@)[i as int]));
            i = i + 1;
            assert(pairs_view(v@) =~= head + pairs_view(self.extra_headers@).take(i as int));
        }
        assert(pairs_view(self.extra_headers@).take(i as int) =~= pairs_view(self.extra_headers@));
        assert(pairs_view(v@) =~= profile_pairs(self@));
        v
    }

    /// The profile's headers, or the error of its first invalid header.
    pub fn to_headers(&self) -> (r: Result<HeaderList, LlphaError>)
        ensures
            match profile_headers(self@) {
                Ok(h) => r matches Ok(hl) && hl@ == h,
                Err(e) => r matches Err(e2) && e2 == e,
            },
    {
        let pairs = self.pairs();
        headers_from_pairs(&pairs)
    }
}

/// The header list made by inserting the pairs in order, or the error of the first invalid
/// one.
pub fn headers_from_pairs(pairs: &Vec<(String, String)>) -> (r: Result<HeaderList, LlphaError>)
    ensures
        match insert_all(Seq::empty(), pairs_view(pairs@), pairs@.len() as int) {
            Ok(h) => r matches Ok(hl) && hl@ == h,
            Err(e) => r matches Err(e2) && e2 == e,
        },
{
    let ghost pv = pairs_view(pairs@);
    let mut headers = HeaderList::new();
    let ghost base = headers@;
    let mut i: usize = 0;
    while i < pairs.len()
        invariant
            i <= pairs@.len(),
            pv == pairs_view(pairs@),
            base == Seq::<(Seq<char>, Seq<char>)>::empty(),
            insert_all(base, pv, i as int) == Ok::<_, LlphaError>(headers@),
        decreases pairs@.len() - i,
    {
        let (n, v) = &pairs[i];
        assert(pv[i as int] == (n@, v@));
        match headers.insert(n.as_str(), v.as_str()) {
            Err(e) => {
                assert(insert_all(base, pv, i + 1) == Err::<Seq<(Seq<char>, Seq<char>)>, LlphaError>(e));
                proof {
                    lemma_insert_all_stays_err(base, pv, i + 1, pv.len() as int);
                }
                return Err(e);
            },
            Ok(()) => {},
        }
        i = i + 1;
    }
    Ok(headers)
}

/// Once inserting fails, inserting more pairs keeps the error.
proof fn lemma_insert_all_stays_err(
    s: Seq<(Seq<char>, Seq<char>)>,
    pairs: Seq<(Seq<char>, Seq<char>)>,
    k: int,
    m: int,
)
    requires
        k <= m,
        insert_all(s, pairs, k) is Err,
    ensures
        insert_all(s, pairs, m) == insert_all(s, pairs, k),
    decreases m - k,
{
    if k < m {
        lemma_insert_all_stays_err(s, pairs, k, m - 1);
    }
}

/// The built-in browser profiles: Chrome on macOS and on Windows, Firefox, Safari on macOS
/// and on iPhone, Chrome on Android, and Edge.
pub open spec fn browser_profile_views() -> Seq<ProfileView> {
    let d = default_profile_view();
    seq![
        (d.0, d.1, d.2, d.3, d.4, d.5.push(("sec-ch-ua"@, CHROME_SEC_CH_UA@))),
        (
            CHROME_WINDOWS_UA@,
            d.1,
            "en-US,en;q=0.9,zh-CN;q=0.8"@,
            d.3,
            d.4,
            d.5.push(("sec-ch-ua"@, CHROME_SEC_CH_UA@)),
        ),
        (FIREFOX_WINDOWS_UA@, HTML_IMAGE_ACCEPT@, d.2, FULL_ENCODING@, d.4, d.5.push(("dnt"@, "1"@))),
        (SAFARI_MAC_UA@, HTML_ACCEPT@, "zh-CN,zh-Hans;q=0.9,en;q=0.8"@, SAFARI_ENCODING@, d.4, d.5),
        (
            SAFARI_IPHONE_UA@,
            HTML_ACCEPT@,
            "zh-CN,zh-Hans;q=0.9,en;q=0.8"@,
            SAFARI_ENCODING@,
            d.4,
            d.5.push(("sec-fetch-site"@, "none"@)),
        ),
        (
            CHROME_ANDROID_UA@,
            HTML_IMAGE_ACCEPT@,
            "zh-CN,zh;q=0.9,en-US;q=0.8,en;q=0.7"@,
            d.3,
            d.4,
            d.5.push(("sec-ch-ua-mobile"@, "?1"@)),
        ),
        (EDGE_WINDOWS_UA@, d.1, "en-US,en;q=0.9"@, d.3, d.4, d.5.push(("sec-ch-ua"@, EDGE_SEC_CH_UA@))),
    ]
}

/// The views of a list of profiles.
pub open spec fn profiles_view(v: Seq<FakeProfile>) -> Seq<ProfileView> {
    v.map_values(|p: FakeProfile| p@)
}

/// The built-in browser profiles.
pub fn browser_profiles() -> (v: Vec<FakeProfile>)
    ensures
        profiles_view(v@) == browser_profile_views(),
{
    let mut v: Vec<FakeProfile> = Vec::new();
    v.push(FakeProfile::default().with_extra_header("sec-ch-ua", CHROME_SEC_CH_UA));
    v.push(
        FakeProfile::default().with_user_agent(CHROME_WINDOWS_UA).with_accept_language(
            "en-US,en;q=0.9,zh-CN;q=0.8",
        ).with_extra_header("sec-ch-ua", CHROME_SEC_CH_UA),
    );
    v.push(
        FakeProfile::default().with_user_agent(FIREFOX_WINDOWS_UA).with_accept(
            HTML_IMAGE_ACCEPT,
        ).with_accept_encoding(FULL_ENCODING).with_extra_header("dnt", "1"),
    );
    v.push(
        FakeProfile::default().with_user_agent(SAFARI_MAC_UA).with_accept(
            HTML_ACCEPT,
        ).with_accept_encoding(SAFARI_ENCODING).with_accept_language(
            "zh-CN,zh-Hans;q=0.9,en;q=0.8",
        ),
    );
    v.push(
        FakeProfile::default().with_user_agent(SAFARI_IPHONE_UA).with_accept(
            HTML_ACCEPT,
        ).with_accept_encoding(SAFARI_ENCODING).with_accept_language(
            "zh-CN,zh-Hans;q=0.9,en;q=0.8",
        ).with_extra_header("sec-fetch-site", "none"),
    );
    v.push(
        FakeProfile::default().with_user_agent(CHROME_ANDROID_UA).with_accept(
            HTML_IMAGE_ACCEPT,
        ).with_accept_language("zh-CN,zh;q=0.9,en-US;q=0.8,en;q=0.7").with_extra_header(
            "sec-ch-ua-mobile",
            "?1",
        ),
    );
    v.push(
        FakeProfile::default().with_user_agent(EDGE_WINDOWS_UA).with_accept_language(
            "en-US,en;q=0.9",
        ).with_extra_header("sec-ch-ua", EDGE_SEC_CH_UA),
    );
    assert(profiles_view(v@) =~= browser_profile_views());
    v
}

/// Disguises a request by adding headers to it.
pub trait HeaderFakeStrategy {
    /// The request with the strategy's headers merged into its own.
    fn apply(&self, request: FetchRequest) -> Result<FetchRequest, LlphaError>;
}

/// Merges a profile's headers into a request.
fn merge_headers(request: FetchRequest, profile: &FakeProfile) -> (r: Result<FetchRequest, LlphaError>)
    ensures
        match profile_headers(profile@) {
            Ok(h) => r matches Ok(after) && merged_request(request, after, h),
            Err(e) => r matches Err(e2) && e2 == e,
        },
{
    let headers = match profile.to_headers() {
        Ok(h) => h,
        Err(e) => return Err(e),
    };
    let mut request = request;
    request.options.headers.merge_from(&headers);
    Ok(request)
}

/// Always the same profile.
#[derive(Clone, Debug)]
pub struct StaticHeaderFakeStrategy {
    profile: FakeProfile,
}

impl StaticHeaderFakeStrategy {
    /// The profile used.
    pub closed spec fn profile_view(&self) -> ProfileView {
        self.profile@
    }

    /// A strategy with the given profile.
    pub fn new(profile: FakeProfile) -> (s: Self)
        ensures
            s.profile_view() == profile@,
    {
        StaticHeaderFakeStrategy { profile }
    }
}

impl Default for StaticHeaderFakeStrategy {
    /// The default profile.
    fn default() -> (s: Self)
        ensures
            s.profile_view() == default_profile_view(),
    {
        StaticHeaderFakeStrategy::new(FakeProfile::default())
    }
}

impl HeaderFakeStrategy for StaticHeaderFakeStrategy {
    /// Merges the profile's headers into the request.
    fn apply(&self, request: FetchRequest) -> (r: Result<FetchRequest, LlphaError>)
        ensures
            match profile_headers(self.profile_view()) {
                Ok(h) => r matches Ok(after) && merged_request(request, after, h),
                Err(e) => r matches Err(e2) && e2 == e,
            },
    {
        merge_headers(request, &self.profile)
    }
}

/// A profile drawn at random for each request.
#[derive(Debug)]
pub struct RandomHeaderFakeStrategy {
    profiles: Vec<FakeProfile>,
}

/// Draws `rand::rng().random_range(0..len)`: some index below `len`, at random.
#[verifier::external_body]
fn random_index(len: usize) -> (i: usize)
    requires
        len > 0,
    ensures
        i < len,
{
    rand::rng().random_range(0..len)
}

impl RandomHeaderFakeStrategy {
    /// Every strategy has at least one candidate.
    #[verifier::type_invariant]
    spec fn has_candidates(self) -> bool {
        self.profiles@.len() > 0
    }

    /// The candidate profiles.
    pub closed spec fn profiles_spec(&self) -> Seq<ProfileView> {
        profiles_view(self.profiles@)
    }

    /// A strategy over the given profiles; refused when there is none.
    pub fn new(profiles: Vec<FakeProfile>) -> (r: Result<Self, LlphaError>)
        ensures
            profiles@.len() == 0 ==> (r matches Err(e) && e == LlphaError::EmptyFakeProfiles),
            profiles@.len() > 0 ==> (r matches Ok(s) && s.profiles_spec() == profiles_view(
                profiles@,
            )),
    {
        if profiles.len() == 0 {
            return Err(LlphaError::EmptyFakeProfiles);
        }
        Ok(RandomHeaderFakeStrategy { profiles })
    }

    /// The number of candidates, never below one.
    pub fn len(&self) -> (n: usize)
        ensures
            n == self.profiles_spec().len(),
            n >= 1,
    {
        proof {
            use_type_invariant(self);
        }
        self.profiles.len()
    }

    /// Whether there is no candidate: never, since every strategy keeps at least one.
    pub fn is_empty(&self) -> (b: bool)
        ensures
            b == (self.profiles_spec().len() == 0),
            !b,
    {
        proof {
            use_type_invariant(self);
        }
        self.profiles.len() == 0
    }
}

impl Default for RandomHeaderFakeStrategy {
    /// The built-in browser profiles.
    fn default() -> (s: Self)
        ensures
            s.profiles_spec() == browser_profile_views(),
    {
        let profiles = browser_profiles();
        assert(profiles_view(profiles@).len() == profiles@.len());
        RandomHeaderFakeStrategy { profiles }
    }
}

impl Clone for RandomHeaderFakeStrategy {
    /// A strategy over the same candidates.
    fn clone(&self) -> (c: Self)
        ensures
            c.profiles_spec() == self.profiles_spec(),
    {
        proof {
            use_type_invariant(self);
        }
        let profiles = self.profiles.clone();
        proof {
            assert forall|i: int| 0 <= i < profiles@.len() implies profiles@[i]@
                == self.profiles@[i]@ by {
                assert(cloned::<FakeProfile>(self.profiles@[i], profiles@[i]));
            }
            assert(profiles_view(profiles@) == profiles_view(self.profiles@));
        }
        RandomHeaderFakeStrategy { profiles }
    }
}

impl HeaderFakeStrategy for RandomHeaderFakeStrategy {
    /// Merges the headers of a randomly drawn candidate into the request; there always is one.
    fn apply(&self, request: FetchRequest) -> (r: Result<FetchRequest, LlphaError>)
        ensures
            self.profiles_spec().len() > 0,
            exists|i: int|
                0 <= i < self.profiles_spec().len() && match profile_headers(
                    #[trigger] self.profiles_spec()[i],
                ) {
                    Ok(h) => r matches Ok(after) && merged_request(request, after, h),
                    Err(e) => r matches Err(e2) && e2 == e,
                },
    {
        proof {
            use_type_invariant(self);
        }
        let profile = match self.choose_profile() {
            Ok(p) => p,
            Err(e) => return Err(e),
        };
        merge_headers(request, profile)
    }
}

impl RandomHeaderFakeStrategy {
    /// One of the candidates, drawn at random; refused when there is none.
    fn choose_profile(&self) -> (r: Result<&FakeProfile, LlphaError>)
        ensures
            self.profiles_spec().len() == 0 ==> (r matches Err(e) && e
                == LlphaError::EmptyFakeProfiles),
            self.profiles_spec().len() > 0 ==> (r matches Ok(p) && exists|i: int|
                0 <= i < self.profiles_spec().len() && #[trigger] self.profiles_spec()[i] == p@),
    {
        if self.profiles.len() == 0 {
            return Err(LlphaError::EmptyFakeProfiles);
        }
        let i = random_index(self.profiles.len());
        assert(self.profiles_spec()[i as int] == self.profiles@[i as int]@);
        Ok(&self.profiles[i])
    }
}

} // verus!
