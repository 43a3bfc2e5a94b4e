//! Core logic of the ki-chat desktop client.

pub mod accueil;
pub mod admin;
pub mod affichage;
pub mod brouillons;
pub mod carnet;
pub mod diagnostic;
pub mod empreinte;
pub mod fil;
pub mod grammaire;
pub mod horloge;
pub mod json;
pub mod listes;
pub mod markup;
pub mod medias;
pub mod menus;
pub mod net;
pub mod overlay;
pub mod partage;
pub mod perf;
pub mod photos;
pub mod porte_ui;
pub mod protocole;
pub mod ptt;
pub mod raccourci;
pub mod rangs;
pub mod reception;
pub mod reglages;
pub mod reprise;
pub mod roster;
pub mod scellement;
pub mod secours;
pub mod session;
pub mod texte;
pub mod visionnage;
pub mod vocal;
