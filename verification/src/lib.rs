//! Processamento de imagens verificado: decomposição de canais, limiarização,
//! filtros de vizinhança (mediana, mínimo, máximo, mediana adaptativa) e utilidades.
pub mod imagem;
pub mod estatistica;
pub mod vizinhanca;
pub mod filtros;
pub mod adaptativo;
pub mod canais;
pub mod texto;
pub mod decomposicao;
pub mod matriz;
pub mod interface;
pub mod limites;
