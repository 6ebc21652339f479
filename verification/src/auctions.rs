pub mod auction;

pub use auction::{
    create_auction, delete_liquidation, delete_stale_auction, delete_stale_auction_at, fill,
    fill_at, require_unique_addresses, scale_auction, scale_auction_at, AuctionData, AuctionFill,
    AuctionType,
};
