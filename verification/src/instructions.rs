pub mod accept_offer;
pub mod make_offer;
pub mod shared;
