pub mod qbittorrent;
