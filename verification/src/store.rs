//! The tracked-product store: an append-only sequence of products.
//! `add` validates a candidate against the supported retailers and
//! their domains before storing it; `list_visible` shows an admin the
//! whole store and any other actor only their own products.

use vstd::prelude::*;

use crate::identity::{Actor, Role};
use crate::price::{target_price_of, Price};
use crate::text::{contains_ci, contains_ci_str, str_eq};

verus! {

/// Why `add` turned a candidate away; the store is left unchanged.
#[derive(Clone, Copy, PartialEq, Eq, Structural, Debug)]
pub enum ValidationError {
    InvalidRetailer,
    InvalidUrl,
}

/// The raw, unvalidated fields of a submitted tracking request. An
/// empty `target_price_text` stands for no target price.
#[derive(Debug)]
pub struct Candidate {
    pub url: String,
    pub name: String,
    pub retailer: String,
    pub target_price_text: String,
}

impl Clone for Candidate {
    fn clone(&self) -> (r: Self)
        ensures
            r == *self,
    {
        Candidate {
            url: self.url.clone(),
            name: self.name.clone(),
            retailer: self.retailer.clone(),
            target_price_text: self.target_price_text.clone(),
        }
    }
}

/// One accepted tracking request; immutable once stored.
#[derive(PartialEq, Debug)]
pub struct Product {
    pub url: String,
    pub name: String,
    pub retailer: String,
    pub target_price: Option<Price>,
    pub added_by: String,
    pub created_at: u64,
}

impl Clone for Product {
    fn clone(&self) -> (r: Self)
        ensures
            r == *self,
    {
        Product {
            url: self.url.clone(),
            name: self.name.clone(),
            retailer: self.retailer.clone(),
            target_price: self.target_price,
            added_by: self.added_by.clone(),
            created_at: self.created_at,
        }
    }
}

/// The retailer is one of the supported set.
pub open spec fn retailer_supported(retailer: Seq<char>) -> bool {
    retailer == "Best Buy"@ || retailer == "Amazon"@
}

/// The URL contains, ignoring ASCII case, a domain fragment of the
/// declared retailer.
pub open spec fn url_matches_retailer(url: Seq<char>, retailer: Seq<char>) -> bool {
    if retailer == "Best Buy"@ {
        contains_ci(url, "bestbuy.com"@)
    } else if retailer == "Amazon"@ {
        contains_ci(url, "amazon.com"@) || contains_ci(url, "amzn.to"@) || contains_ci(
            url,
            "a.co"@,
        )
    } else {
        false
    }
}

/// A candidate the store accepts: supported retailer, matching URL.
pub open spec fn candidate_valid(c: Candidate) -> bool {
    retailer_supported(c.retailer@) && url_matches_retailer(c.url@, c.retailer@)
}

/// The stored product keeps the candidate's fields, the parse of its
/// target-price text, and the acting username as owner.
pub open spec fn records_submission(p: Product, c: Candidate, a: Actor) -> bool {
    &&& p.url@ == c.url@
    &&& p.name@ == c.name@
    &&& p.retailer@ == c.retailer@
    &&& p.target_price == target_price_of(c.target_price_text@)
    &&& p.added_by@ == a.username@
}

/// What an actor sees of the store: everything for an admin, otherwise
/// only the products the actor added, in store order either way.
pub open spec fn visible_to(products: Seq<Product>, actor: Actor) -> Seq<Product> {
    if actor.role == Role::Admin {
        products
    } else {
        products.filter(|p: Product| p.added_by@ == actor.username@)
    }
}

/// The fixed supported-retailer set, the one source for both the add
/// validation and any listing over it.
pub fn supported_retailers() -> (r: Vec<&'static str>)
    ensures
        r@.len() == 2,
        r@[0]@ == "Best Buy"@,
        r@[1]@ == "Amazon"@,
        forall|i: int| 0 <= i < r@.len() ==> retailer_supported(#[trigger] r@[i]@),
{
    let mut v: Vec<&'static str> = Vec::new();
    v.push("Best Buy");
    v.push("Amazon");
    v
}

/// The append-only product store, initialized empty and only ever
/// grown by `add`.
pub struct Store {
    products: Vec<Product>,
}

impl View for Store {
    type V = Seq<Product>;

    closed spec fn view(&self) -> Seq<Product> {
        self.products@
    }
}

/// Relies on std::time::SystemTime::now, read as whole milliseconds
/// since the Unix epoch, for the creation timestamp of a stored
/// product; a clock before the epoch or past the u64 range is pinned
/// to the nearest representable value.
#[verifier::external_body]
fn now_millis() -> u64 {
    match std::time::SystemTime::now().duration_since(std::time::UNIX_EPOCH) {
        Ok(elapsed) => u64::try_from(elapsed.as_millis()).unwrap_or(u64::MAX),
        Err(_) => 0,
    }
}

impl Store {
    /// The empty store a process starts with.
    pub fn new() -> (s: Store)
        ensures
            s@ == Seq::<Product>::empty(),
    {
        Store { products: Vec::new() }
    }

    /// Validates and stores a candidate with the given creation
    /// timestamp. A failed validation leaves the store unchanged.
    pub fn add_at(
        &mut self,
        candidate: &Candidate,
        actor: &Actor,
        created_at: u64,
    ) -> (r: Result<(), ValidationError>)
        ensures
            r is Ok <==> candidate_valid(*candidate),
            !retailer_supported(candidate.retailer@) ==> r == Err::<(), ValidationError>(
                ValidationError::InvalidRetailer,
            ) && final(self)@ == old(self)@,
            retailer_supported(candidate.retailer@) && !url_matches_retailer(
                candidate.url@,
                candidate.retailer@,
            ) ==> r == Err::<(), ValidationError>(ValidationError::InvalidUrl) && final(self)@
                == old(self)@,
            candidate_valid(*candidate) ==> {
                &&& final(self)@ == old(self)@.push(final(self)@.last())
                &&& final(self)@.len() == old(self)@.len() + 1
                &&& records_submission(final(self)@.last(), *candidate, *actor)
                &&& final(self)@.last().created_at == created_at
            },
    {
        let is_best_buy = str_eq(candidate.retailer.as_str(), "Best Buy");
        let is_amazon = str_eq(candidate.retailer.as_str(), "Amazon");
        if !is_best_buy && !is_amazon {
            return Err(ValidationError::InvalidRetailer);
        }
        let url_ok = if is_best_buy {
            contains_ci_str(candidate.url.as_str(), "bestbuy.com")
        } else {
            contains_ci_str(candidate.url.as_str(), "amazon.com") || contains_ci_str(
                candidate.url.as_str(),
                "amzn.to",
            ) || contains_ci_str(candidate.url.as_str(), "a.co")
        };
        if !url_ok {
            return Err(ValidationError::InvalidUrl);
        }
        let target_price = crate::price::parse_target_price(
            candidate.target_price_text.as_str(),
        );
        let product = Product {
            url: candidate.url.clone(),
            name: candidate.name.clone(),
            retailer: candidate.retailer.clone(),
            target_price,
            added_by: actor.username.clone(),
            created_at,
        };
        self.products.push(product);
        Ok(())
    }

    /// Validates and stores a candidate, stamped with the present
    /// moment. A failed validation leaves the store unchanged; the
    /// target-price text never fails validation.
    pub fn add(&mut self, candidate: &Candidate, actor: &Actor) -> (r: Result<
        (),
        ValidationError,
    >)
        ensures
            r is Ok <==> candidate_valid(*candidate),
            !retailer_supported(candidate.retailer@) ==> r == Err::<(), ValidationError>(
                ValidationError::InvalidRetailer,
            ) && final(self)@ == old(self)@,
            retailer_supported(candidate.retailer@) && !url_matches_retailer(
                candidate.url@,
                candidate.retailer@,
            ) ==> r == Err::<(), ValidationError>(ValidationError::InvalidUrl) && final(self)@
                == old(self)@,
            candidate_valid(*candidate) ==> {
                &&& final(self)@ == old(self)@.push(final(self)@.last())
                &&& final(self)@.len() == old(self)@.len() + 1
                &&& records_submission(final(self)@.last(), *candidate, *actor)
            },
    {
        let created_at = now_millis();
        self.add_at(candidate, actor, created_at)
    }

    /// The products the actor may see, in store (insertion) order.
    pub fn list_visible(&self, actor: &Actor) -> (r: Vec<Product>)
        ensures
            r@ == visible_to(self@, *actor),
    {
        let mut out: Vec<Product> = Vec::new();
        let mut i: usize = 0;
        while i < self.products.len()
            invariant
                i <= self.products.len(),
                out@ == visible_to(self.products@.take(i as int), *actor),
            decreases self.products.len() - i,
        {
            let p = &self.products[i];
            let keep = match actor.role {
                Role::Admin => true,
                Role::Regular => str_eq(p.added_by.as_str(), actor.username.as_str()),
            };
            proof {
                assert(self.products@.take(i as int + 1) =~= self.products@.take(i as int).push(
                    self.products@[i as int],
                ));
                lemma_filter_push(
                    self.products@.take(i as int),
                    |q: Product| q.added_by@ == actor.username@,
                    self.products@[i as int],
                );
            }
            if keep {
                out.push(p.clone());
            }
            i += 1;
        }
        proof {
            assert(self.products@.take(self.products@.len() as int) =~= self.products@);
        }
        out
    }
}

proof fn lemma_filter_push<A>(s: Seq<A>, pred: spec_fn(A) -> bool, e: A)
    ensures
        s.push(e).filter(pred) == if pred(e) {
            s.filter(pred).push(e)
        } else {
            s.filter(pred)
        },
{
    reveal(Seq::filter);
    assert(s.push(e).drop_last() =~= s);
    assert(s.push(e).last() == e);
}

/// Law: a product just added by an actor turns up in that actor's own
/// view, as its last element, whatever the actor's role.
pub proof fn lemma_added_product_visible(products: Seq<Product>, p: Product, a: Actor)
    requires
        p.added_by@ == a.username@,
    ensures
        visible_to(products.push(p), a) == visible_to(products, a).push(p),
        visible_to(products.push(p), a).len() > 0,
        visible_to(products.push(p), a).last() == p,
{
    if a.role != Role::Admin {
        lemma_filter_push(products, |q: Product| q.added_by@ == a.username@, p);
    }
}

/// Law: after a successful `add`, the store the acting actor sees ends
/// with a product that records the very submission.
pub proof fn lemma_add_then_visible(pre: Seq<Product>, post: Seq<Product>, c: Candidate, a: Actor)
    requires
        post.len() == pre.len() + 1,
        post == pre.push(post.last()),
        records_submission(post.last(), c, a),
    ensures
        visible_to(post, a).len() > 0,
        records_submission(visible_to(post, a).last(), c, a),
{
    lemma_added_product_visible(pre, post.last(), a);
}

/// Law: a non-admin actor sees only products that actor added.
pub proof fn lemma_visible_only_own(products: Seq<Product>, a: Actor, i: int)
    requires
        a.role != Role::Admin,
        0 <= i < visible_to(products, a).len(),
    ensures
        visible_to(products, a)[i].added_by@ == a.username@,
{
    products.lemma_filter_pred(|q: Product| q.added_by@ == a.username@, i);
}

/// Law: every product of the store that the actor added is in the
/// actor's own view.
pub proof fn lemma_own_products_visible(products: Seq<Product>, a: Actor, i: int)
    requires
        0 <= i < products.len(),
        products[i].added_by@ == a.username@,
    ensures
        visible_to(products, a).contains(products[i]),
{
    if a.role != Role::Admin {
        products.lemma_filter_contains(|q: Product| q.added_by@ == a.username@, i);
    } else {
        assert(visible_to(products, a)[i] == products[i]);
    }
}

/// Law: a product added by one user never turns up in the view of a
/// different non-admin user.
pub proof fn lemma_no_cross_visibility(products: Seq<Product>, a: Actor, b: Actor, p: Product)
    requires
        a.role != Role::Admin,
        a.username@ != b.username@,
        p.added_by@ == b.username@,
    ensures
        !visible_to(products, a).contains(p),
{
    let vis = visible_to(products, a);
    if vis.contains(p) {
        let i = choose|i: int| 0 <= i < vis.len() && vis[i] == p;
        lemma_visible_only_own(products, a, i);
    }
}

/// Law: an admin's view is the whole store, in store order, whoever
/// added each product.
pub proof fn lemma_admin_sees_all(products: Seq<Product>, a: Actor)
    requires
        a.role == Role::Admin,
    ensures
        visible_to(products, a) == products,
{
}

/// Law: listing is read-only and repeatable; two views of the same
/// store by the same actor are the same sequence in the same order.
pub proof fn lemma_listing_repeatable(
    products: Seq<Product>,
    a: Actor,
    r1: Seq<Product>,
    r2: Seq<Product>,
)
    requires
        r1 == visible_to(products, a),
        r2 == visible_to(products, a),
    ensures
        r1 == r2,
{
}

} // verus!
