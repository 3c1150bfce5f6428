//! Core of the MMail client: the IMAP dialogue, the local index and the rules
//! that tie them together, with their contracts.
//!
//! Nothing here touches a socket, a disk or a window. What has to be sent,
//! stored or shown comes back as a value; what was received goes in as one.

pub mod affichage;
pub mod annuaire;
pub mod arbre;
pub mod boite;
pub mod chemins;
pub mod coherence;
pub mod commande;
pub mod courrier;
pub mod dates;
pub mod demandes;
pub mod deplacement;
pub mod ensembles;
pub mod favoris;
pub mod flux;
pub mod html;
pub mod imap;
pub mod index;
pub mod json;
pub mod magasin;
pub mod nombre;
pub mod objets;
pub mod ouvrages;
pub mod protocole;
pub mod registre;
pub mod reponses;
pub mod schema;
pub mod serveur;
pub mod synchro;
pub mod tables;
pub mod tache;
pub mod texte;
pub mod transmission;
pub mod travail;
pub mod utf7;
