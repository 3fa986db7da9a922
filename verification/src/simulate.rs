//! Test-mode simulation: stands in for a poll that found an available
//! product, so the purchase path can be exercised without the vendor API.
use vstd::prelude::*;
use vstd::string::*;

verus! {

/// The sample purchase URL handed out in test mode.
pub open spec fn spec_sample_url() -> Seq<char> {
    "https://www.proshop.de/Basket/BuyNvidiaGraphicCard?t=bFHncOsrkXFbYRF56H68bUYIDb5AcZcdMLlBR44dZW46fqwfc5XdgVX7GcBoTv0MPqdirRx3xR%2B%2BHzx%2BBotzaO%2F4L%2FlTqKPHplY5e9vGhWSXFRzoebTbYEhykPPVXJ4u2DB0yTMDccuO1cXeoNsy2MRNf3G9p3fUSVp9zASLJ0uJymzkdEijj0QKsZLS8I4GQ252Y7yAUFDboHiEt9TDvJ3Fo1HXw9KXeueIUZ432lQhBuzhHR78O9N%2FbJldC6r9YdeRgCszPH2m2u7VRaaZPasTuvylSd0yj7tOxQOTou85%2BV7D%2Fw3brZng%2Bc5t4CE6vL0qKGsyvL4lH%2FfCE3YWkQ%3D%3D"@
}

/// The sample purchase URL handed out in test mode.
pub fn sample_purchase_url() -> (r: String)
    ensures
        r@ == spec_sample_url(),
{
    String::from_str(
        "https://www.proshop.de/Basket/BuyNvidiaGraphicCard?t=bFHncOsrkXFbYRF56H68bUYIDb5AcZcdMLlBR44dZW46fqwfc5XdgVX7GcBoTv0MPqdirRx3xR%2B%2BHzx%2BBotzaO%2F4L%2FlTqKPHplY5e9vGhWSXFRzoebTbYEhykPPVXJ4u2DB0yTMDccuO1cXeoNsy2MRNf3G9p3fUSVp9zASLJ0uJymzkdEijj0QKsZLS8I4GQ252Y7yAUFDboHiEt9TDvJ3Fo1HXw9KXeueIUZ432lQhBuzhHR78O9N%2FbJldC6r9YdeRgCszPH2m2u7VRaaZPasTuvylSd0yj7tOxQOTou85%2BV7D%2Fw3brZng%2Bc5t4CE6vL0qKGsyvL4lH%2FfCE3YWkQ%3D%3D",
    )
}

/// Simulate an available product: the given product name paired with the
/// sample purchase URL, or the simulated failure when one is forced.
pub fn simulate_available_product(product_name: &str, force_error: bool) -> (r: Result<
    Option<(String, String)>,
    String,
>)
    ensures
        force_error ==> r is Err,
        !force_error ==> match r {
            Ok(Some((name, url))) => name@ == product_name@ && url@ == spec_sample_url(),
            _ => false,
        },
{
    if force_error {
        return Err(String::from_str("Simulated error in test mode"));
    }
    Ok(Some((String::from_str(product_name), sample_purchase_url())))
}

} // verus!
