//! The idea catalog: the row-major cross product of a product-name list and
//! a customer-name list. An idea's display name is `"{product} for
//! {customer}"`, selected from the catalog by index with wrap-around, so a
//! catalog smaller than the requested idea count is reused cyclically.

use vstd::prelude::*;
use vstd::string::StringExecFns;

verus! {

/// The name under which the idea for the pair (product, customer) is known.
pub open spec fn idea_name(product: Seq<char>, customer: Seq<char>) -> Seq<char> {
    product + " for "@ + customer
}

/// Whether `pairs` is the row-major cross product of `products` and
/// `customers`: entry `i * customers.len() + j` pairs product `i` with
/// customer `j`.
pub open spec fn is_cross_product(
    pairs: Seq<(String, String)>,
    products: Seq<String>,
    customers: Seq<String>,
) -> bool {
    &&& pairs.len() == products.len() * customers.len()
    &&& forall|i: int, j: int|
        0 <= i < products.len() && 0 <= j < customers.len() ==> {
            &&& (#[trigger] pairs[i * customers.len() + j]).0@ == products[i]@
            &&& pairs[i * customers.len() + j].1@ == customers[j]@
        }
}

/// Builds the row-major cross product of the two name lists.
pub fn cross_product(products: Vec<String>, customers: Vec<String>) -> (pairs: Vec<
    (String, String),
>)
    ensures
        is_cross_product(pairs@, products@, customers@),
{
    let clen = customers.len();
    let mut pairs: Vec<(String, String)> = Vec::new();
    let mut i: usize = 0;
    while i < products.len()
        invariant
            i <= products@.len(),
            clen == customers@.len(),
            pairs@.len() == i * clen,
            forall|a: int, b: int|
                0 <= a < i && 0 <= b < clen ==> {
                    &&& (#[trigger] pairs@[a * clen + b]).0@ == products@[a]@
                    &&& pairs@[a * clen + b].1@ == customers@[b]@
                },
        decreases products@.len() - i,
    {
        let mut j: usize = 0;
        while j < customers.len()
            invariant
                i < products@.len(),
                j <= customers@.len(),
                clen == customers@.len(),
                pairs@.len() == i * clen + j,
                forall|a: int, b: int|
                    0 <= a < i && 0 <= b < clen ==> {
                        &&& (#[trigger] pairs@[a * clen + b]).0@ == products@[a]@
                        &&& pairs@[a * clen + b].1@ == customers@[b]@
                    },
                forall|b: int|
                    0 <= b < j ==> {
                        &&& (#[trigger] pairs@[i * clen + b]).0@ == products@[i as int]@
                        &&& pairs@[i * clen + b].1@ == customers@[b]@
                    },
            decreases customers@.len() - j,
        {
            pairs.push((products[i].clone(), customers[j].clone()));
            proof {
                assert forall|a: int, b: int| 0 <= a < i && 0 <= b < clen implies {
                    &&& (#[trigger] pairs@[a * clen + b]).0@ == products@[a]@
                    &&& pairs@[a * clen + b].1@ == customers@[b]@
                } by {
                    assert(a * clen + b < i as int * clen) by (nonlinear_arith)
                        requires
                            0 <= a < i,
                            0 <= b < clen,
                    ;
                }
            }
            j += 1;
        }
        proof {
            assert((i + 1) * clen == i * clen + clen) by (nonlinear_arith);
            assert forall|a: int, b: int| 0 <= a < i + 1 && 0 <= b < clen implies {
                &&& (#[trigger] pairs@[a * clen + b]).0@ == products@[a]@
                &&& pairs@[a * clen + b].1@ == customers@[b]@
            } by {
                assert(a * clen + b < (i + 1) * clen) by (nonlinear_arith)
                    requires
                        0 <= a < i + 1,
                        0 <= b < clen,
                ;
                if a < i {
                    assert(pairs@[a * clen + b].0@ == products@[a]@ && pairs@[a * clen + b].1@
                        == customers@[b]@);
                } else {
                    assert(a == i);
                    assert(pairs@[(i as int) * clen + b].0@ == products@[i as int]@ && pairs@[(
                    i as int) * clen + b].1@ == customers@[b]@);
                }
            }
        }
        i += 1;
    }
    pairs
}

/// The idea catalog that seeds the generators: every product crossed with
/// every customer, row-major.
pub fn get_ideas(products: Vec<String>, customers: Vec<String>) -> (pairs: Vec<(String, String)>)
    ensures
        is_cross_product(pairs@, products@, customers@),
{
    cross_product(products, customers)
}

/// Renders the display name of the idea for one catalog pair.
pub fn format_idea_name(product: &String, customer: &String) -> (r: String)
    ensures
        r@ == idea_name(product@, customer@),
{
    let mut r = product.clone();
    r.append(" for ");
    r.append(customer.as_str());
    r
}

} // verus!
