//! The cookie jar, modeled as an immutable mapping from cookie name to
//! cookie. Operations return a new jar; callers thread it through, and the
//! final jar is what goes back to the browser.

use vstd::prelude::*;

use crate::settings::{CookieConfig, SameSite};
use crate::text::str_eq;

verus! {

/// The mathematical content of one cookie.
pub ghost struct CookieModel {
    pub name: Seq<char>,
    pub value: Seq<char>,
    pub domain: Seq<char>,
    pub secure: bool,
    pub http_only: bool,
    pub same_site: SameSite,
}

/// One named cookie with its policy attributes; the path is always `/`.
#[derive(Clone, Debug)]
pub struct Cookie {
    pub name: String,
    pub value: String,
    pub domain: String,
    pub secure: bool,
    pub http_only: bool,
    pub same_site: SameSite,
}

impl View for Cookie {
    type V = CookieModel;

    open spec fn view(&self) -> CookieModel {
        CookieModel {
            name: self.name@,
            value: self.value@,
            domain: self.domain@,
            secure: self.secure,
            http_only: self.http_only,
            same_site: self.same_site,
        }
    }
}

impl Cookie {
    pub fn name(&self) -> (r: &str)
        ensures
            r@ == self@.name,
    {
        self.name.as_str()
    }

    pub fn value(&self) -> (r: &str)
        ensures
            r@ == self@.value,
    {
        self.value.as_str()
    }

    pub fn domain(&self) -> (r: Option<&str>)
        ensures
            r matches Some(d) && d@ == self@.domain,
    {
        Some(self.domain.as_str())
    }

    pub fn path(&self) -> (r: Option<&str>)
        ensures
            r matches Some(p) && p@ == "/"@,
    {
        Some("/")
    }

    pub fn secure(&self) -> (r: Option<bool>)
        ensures
            r == Some(self@.secure),
    {
        Some(self.secure)
    }

    pub fn http_only(&self) -> (r: Option<bool>)
        ensures
            r == Some(self@.http_only),
    {
        Some(self.http_only)
    }

    pub fn same_site(&self) -> (r: Option<SameSite>)
        ensures
            r == Some(self@.same_site),
    {
        Some(self.same_site)
    }
}

/// The cookie a policy prescribes, carrying `value`.
pub open spec fn cookie_of(config: CookieConfig, value: Seq<char>) -> CookieModel {
    CookieModel {
        name: config.name@,
        value,
        domain: config.domain@,
        secure: config.secure,
        http_only: config.http_only,
        same_site: config.same_site,
    }
}

/// Builds the cookie a policy prescribes, carrying `value`.
pub fn new_cookie(config: CookieConfig, value: String) -> (r: Cookie)
    ensures
        r@ == cookie_of(config, value@),
{
    Cookie {
        name: config.name,
        value,
        domain: config.domain,
        secure: config.secure,
        http_only: config.http_only,
        same_site: config.same_site,
    }
}

pub open spec fn views_of(s: Seq<Cookie>) -> Seq<CookieModel> {
    s.map_values(|c: Cookie| c@)
}

pub open spec fn unique_names(s: Seq<CookieModel>) -> bool {
    forall|i: int, j: int| 0 <= i < j < s.len() ==> (#[trigger] s[i]).name != (#[trigger] s[j]).name
}

/// The mapping a list of cookies denotes; later entries shadow earlier
/// ones, though a well-formed jar never repeats a name.
pub open spec fn jar_map_of(s: Seq<CookieModel>) -> Map<Seq<char>, CookieModel>
    decreases s.len(),
{
    if s.len() == 0 {
        Map::<Seq<char>, CookieModel>::empty()
    } else {
        jar_map_of(s.drop_last()).insert(s.last().name, s.last())
    }
}

proof fn lemma_jar_contains(s: Seq<CookieModel>, k: Seq<char>)
    ensures
        jar_map_of(s).contains_key(k) <==> exists|i: int|
            0 <= i < s.len() && (#[trigger] s[i]).name == k,
    decreases s.len(),
{
    if s.len() > 0 {
        lemma_jar_contains(s.drop_last(), k);
        if s.last().name == k {
            assert(s[s.len() - 1].name == k);
        } else if jar_map_of(s).contains_key(k) {
            let i = choose|i: int| 0 <= i < s.drop_last().len() && (#[trigger] s.drop_last()[i]).name == k;
            assert(s[i].name == k);
        } else {
            assert forall|i: int| 0 <= i < s.len() implies (#[trigger] s[i]).name != k by {
                if i < s.len() - 1 {
                    assert(s.drop_last()[i].name != k);
                }
            }
        }
    }
}

proof fn lemma_jar_index(s: Seq<CookieModel>, i: int)
    requires
        unique_names(s),
        0 <= i < s.len(),
    ensures
        jar_map_of(s).contains_key(s[i].name),
        jar_map_of(s)[s[i].name] == s[i],
    decreases s.len(),
{
    if i < s.len() - 1 {
        assert(unique_names(s.drop_last()));
        lemma_jar_index(s.drop_last(), i);
        assert(s[i].name != s.last().name);
    }
}

proof fn lemma_jar_remove(s: Seq<CookieModel>, i: int)
    requires
        unique_names(s),
        0 <= i < s.len(),
    ensures
        unique_names(s.remove(i)),
        jar_map_of(s.remove(i)) == jar_map_of(s).remove(s[i].name),
    decreases s.len(),
{
    let k = s[i].name;
    s.remove_ensures(i);
    assert forall|a: int, b: int| 0 <= a < b < s.remove(i).len() implies (#[trigger] s.remove(
        i,
    )[a]).name != (#[trigger] s.remove(i)[b]).name by {
        let a0 = if a < i {
            a
        } else {
            a + 1
        };
        let b0 = if b < i {
            b
        } else {
            b + 1
        };
        assert(s.remove(i)[a] == s[a0]);
        assert(s.remove(i)[b] == s[b0]);
    }
    if i == s.len() - 1 {
        assert(s.remove(i) =~= s.drop_last());
        lemma_jar_contains(s.drop_last(), k);
        assert forall|j: int| 0 <= j < s.drop_last().len() implies (#[trigger] s.drop_last()[
            j]).name != k by {
            assert(s[j].name != s[s.len() - 1].name);
        }
        assert(!jar_map_of(s.drop_last()).contains_key(k));
        assert(jar_map_of(s.drop_last()) =~= jar_map_of(s).remove(k));
    } else {
        assert(unique_names(s.drop_last()));
        lemma_jar_remove(s.drop_last(), i);
        assert(s.remove(i).drop_last() =~= s.drop_last().remove(i));
        assert(s.remove(i).last() == s.last());
        assert(s[i].name != s.last().name);
        assert(jar_map_of(s.remove(i)) == jar_map_of(s.drop_last().remove(i)).insert(
            s.last().name,
            s.last(),
        ));
        assert(jar_map_of(s.drop_last()).remove(k).insert(s.last().name, s.last())
            =~= jar_map_of(s.drop_last()).insert(s.last().name, s.last()).remove(k));
    }
}

/// The browser's cookie jar: the only state the system keeps.
#[derive(Clone, Debug)]
pub struct CookieJar {
    cookies: Vec<Cookie>,
}

impl View for CookieJar {
    type V = Map<Seq<char>, CookieModel>;

    closed spec fn view(&self) -> Map<Seq<char>, CookieModel> {
        jar_map_of(views_of(self.cookies@))
    }
}

impl CookieJar {
    /// No name occurs twice.
    pub closed spec fn wf(&self) -> bool {
        unique_names(views_of(self.cookies@))
    }

    /// The empty jar.
    pub fn new() -> (r: CookieJar)
        ensures
            r.wf(),
            r@ == Map::<Seq<char>, CookieModel>::empty(),
    {
        let r = CookieJar { cookies: Vec::new() };
        proof {
            assert(views_of(r.cookies@) =~= Seq::<CookieModel>::empty());
        }
        r
    }

    fn find_index(&self, name: &str) -> (r: Option<usize>)
        ensures
            r matches Some(i) ==> i < self.cookies@.len() && views_of(self.cookies@)[i as int].name
                == name@,
            r is None ==> forall|i: int|
                0 <= i < self.cookies@.len() ==> (#[trigger] views_of(self.cookies@)[i]).name
                    != name@,
    {
        let n = self.cookies.len();
        let mut i: usize = 0;
        while i < n
            invariant
                0 <= i <= n,
                n == self.cookies@.len(),
                forall|j: int|
                    0 <= j < i ==> (#[trigger] views_of(self.cookies@)[j]).name != name@,
            decreases n - i,
        {
            if str_eq(self.cookies[i].name.as_str(), name) {
                return Some(i);
            }
            i += 1;
        }
        None
    }

    /// Looks a cookie up by name.
    pub fn get(&self, name: &str) -> (r: Option<&Cookie>)
        requires
            self.wf(),
        ensures
            r matches Some(c) ==> self@.contains_key(name@) && c@ == self@[name@],
            r is None ==> !self@.contains_key(name@),
    {
        match self.find_index(name) {
            Some(i) => {
                proof {
                    lemma_jar_index(views_of(self.cookies@), i as int);
                }
                Some(&self.cookies[i])
            },
            None => {
                proof {
                    lemma_jar_contains(views_of(self.cookies@), name@);
                }
                None
            },
        }
    }

    /// The jar without the named cookie; the same jar if it is absent.
    pub fn remove(self, name: &str) -> (r: CookieJar)
        requires
            self.wf(),
        ensures
            r.wf(),
            r@ == self@.remove(name@),
    {
        match self.find_index(name) {
            None => {
                proof {
                    lemma_jar_contains(views_of(self.cookies@), name@);
                    assert(self@ =~= self@.remove(name@));
                }
                self
            },
            Some(i) => {
                let ghost old_views = views_of(self.cookies@);
                let mut cookies = self.cookies;
                cookies.remove(i);
                proof {
                    old_views.remove_ensures(i as int);
                    assert(views_of(cookies@) =~= old_views.remove(i as int));
                    lemma_jar_remove(old_views, i as int);
                }
                CookieJar { cookies }
            },
        }
    }

    /// The jar with this cookie set, replacing any cookie of the same name.
    pub fn add(self, cookie: Cookie) -> (r: CookieJar)
        requires
            self.wf(),
        ensures
            r.wf(),
            r@ == self@.insert(cookie@.name, cookie@),
    {
        let ghost old_map = self@;
        let jar = self.remove(cookie.name.as_str());
        let ghost prev_views = views_of(jar.cookies@);
        let mut cookies = jar.cookies;
        cookies.push(cookie);
        proof {
            lemma_jar_contains(prev_views, cookie@.name);
            assert(!jar_map_of(prev_views).contains_key(cookie@.name));
            assert(views_of(cookies@).drop_last() =~= prev_views);
            assert(views_of(cookies@).last() == cookie@);
            let nv = views_of(cookies@);
            assert forall|a: int, b: int| 0 <= a < b < nv.len() implies (#[trigger] nv[a]).name
                != (#[trigger] nv[b]).name by {
                if b == nv.len() - 1 {
                    assert(nv[a] == prev_views[a]);
                    assert(prev_views[a].name != cookie@.name);
                } else {
                    assert(nv[a] == prev_views[a]);
                    assert(nv[b] == prev_views[b]);
                }
            }
            assert(unique_names(views_of(cookies@)));
            assert(old_map.remove(cookie@.name).insert(cookie@.name, cookie@) =~= old_map.insert(
                cookie@.name,
                cookie@,
            ));
        }
        CookieJar { cookies }
    }

    /// The cookies the jar holds, for rendering a response: exactly the
    /// entries of the mapping, each under its own name.
    pub fn entries(&self) -> (r: &Vec<Cookie>)
        requires
            self.wf(),
        ensures
            forall|i: int|
                0 <= i < r@.len() ==> self@.contains_key((#[trigger] r@[i])@.name) && self@[r@[
                    i]@.name] == r@[i]@,
            forall|k: Seq<char>|
                self@.contains_key(k) ==> exists|i: int|
                    0 <= i < r@.len() && (#[trigger] r@[i])@.name == k,
    {
        proof {
            let views = views_of(self.cookies@);
            assert forall|i: int| 0 <= i < self.cookies@.len() implies self@.contains_key(
                (#[trigger] self.cookies@[i])@.name,
            ) && self@[self.cookies@[i]@.name] == self.cookies@[i]@ by {
                lemma_jar_index(views, i);
            }
            assert forall|k: Seq<char>| self@.contains_key(k) implies exists|i: int|
                0 <= i < self.cookies@.len() && (#[trigger] self.cookies@[i])@.name == k by {
                lemma_jar_contains(views, k);
                let i = choose|i: int| 0 <= i < views.len() && (#[trigger] views[i]).name == k;
                assert(self.cookies@[i]@.name == k);
            }
        }
        &self.cookies
    }
}

} // verus!
